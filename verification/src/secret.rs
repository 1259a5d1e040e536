//! Random shared secrets, encoded for transport.

use base64::Engine as _;
use vstd::prelude::*;
use crate::base32::{base32_encode, base32_encode_spec, base32_encoded_shape, value_of};

verus! {

/// Calls `rand::random::<u8>()`: one byte from the thread-local generator.
/// Nothing is promised of its value.
#[verifier::external_body]
fn random_byte() -> u8 {
    rand::random::<u8>()
}

/// `n` bytes from the thread-local random generator.
pub fn random_bytes(n: usize) -> (res: Vec<u8>)
    ensures
        res@.len() == n,
{
    let mut v: Vec<u8> = Vec::new();
    for _i in 0..n
        invariant
            v@.len() == _i,
    {
        v.push(random_byte());
    }
    v
}

/// The symbol of a six-bit value in the URL-safe base64 alphabet
/// (RFC 4648, section 5): `A`..`Z`, `a`..`z`, `0`..`9`, `-`, `_`.
pub open spec fn base64_url_symbol(v: int) -> char {
    if v < 26 {
        (65 + v) as char
    } else if v < 52 {
        (71 + v) as char
    } else if v < 62 {
        (v - 4) as char
    } else if v == 62 {
        '-'
    } else {
        '_'
    }
}

/// URL-safe base64 without padding: each group of three bytes becomes four
/// symbols, and a last group of one or two bytes becomes two or three.
pub open spec fn base64_url_nopad(b: Seq<u8>) -> Seq<char>
    decreases b.len(),
{
    if b.len() == 0 {
        seq![]
    } else {
        let b0 = b[0] as int;
        let b1 = if b.len() > 1 { b[1] as int } else { 0 };
        let b2 = if b.len() > 2 { b[2] as int } else { 0 };
        let g = seq![b0 / 4, (b0 % 4) * 16 + b1 / 16, (b1 % 16) * 4 + b2 / 64, b2 % 64];
        let n: nat = if b.len() >= 3 { 4 } else if b.len() == 2 { 3 } else { 2 };
        let group = Seq::new(n, |k: int| base64_url_symbol(g[k]));
        if b.len() <= 3 {
            group
        } else {
            group + base64_url_nopad(b.skip(3))
        }
    }
}

/// Calls `Engine::encode` of the `URL_SAFE_NO_PAD` engine of the `base64`
/// crate, which is URL-safe base64 without padding.
#[verifier::external_body]
fn encode_base64_url(bytes: &[u8]) -> (res: String)
    ensures
        res@ == base64_url_nopad(bytes@),
{
    base64::engine::general_purpose::URL_SAFE_NO_PAD.encode(bytes)
}

/// The characters of the URL-safe base64 alphabet.
pub open spec fn is_base64_url_char(c: char) -> bool {
    ('A' <= c && c <= 'Z') || ('a' <= c && c <= 'z') || ('0' <= c && c <= '9') || c == '-' || c
        == '_'
}

/// URL-safe base64 of `n` bytes has `ceil(4n/3)` symbols, all from its
/// alphabet.
pub proof fn base64_url_shape(b: Seq<u8>)
    ensures
        base64_url_nopad(b).len() == (4 * b.len() + 2) / 3,
        forall|k: int| 0 <= k < base64_url_nopad(b).len() ==> is_base64_url_char(
            #[trigger] base64_url_nopad(b)[k],
        ),
    decreases b.len(),
{
    if b.len() > 0 {
        let e = base64_url_nopad(b);
        let b0 = b[0] as int;
        let b1 = if b.len() > 1 { b[1] as int } else { 0 };
        let b2 = if b.len() > 2 { b[2] as int } else { 0 };
        let g = seq![b0 / 4, (b0 % 4) * 16 + b1 / 16, (b1 % 16) * 4 + b2 / 64, b2 % 64];
        assert(forall|k: int| 0 <= k < 4 ==> 0 <= #[trigger] g[k] < 64);
        let n: nat = if b.len() >= 3 { 4 } else if b.len() == 2 { 3 } else { 2 };
        let group = Seq::new(n, |k: int| base64_url_symbol(g[k]));
        assert forall|k: int| 0 <= k < group.len() implies is_base64_url_char(#[trigger] group[k]) by {
            assert(0 <= g[k] < 64);
        }
        if b.len() > 3 {
            base64_url_shape(b.skip(3));
            let t = base64_url_nopad(b.skip(3));
            assert(e == group + t);
            assert forall|k: int| 0 <= k < e.len() implies is_base64_url_char(#[trigger] e[k]) by {
                if k < group.len() {
                    assert(e[k] == group[k]);
                } else {
                    assert(e[k] == t[k - group.len()]);
                }
            }
        } else {
            assert(e == group);
        }
    }
}

/// A fresh secret of 32 random bytes, in URL-safe base64 without padding:
/// 43 characters of that alphabet.
pub fn generate_totp_secret() -> (res: String)
    ensures
        exists|b: Seq<u8>| b.len() == 32 && res@ == base64_url_nopad(b),
        res@.len() == 43,
        forall|k: int| 0 <= k < res@.len() ==> is_base64_url_char(#[trigger] res@[k]),
{
    let secret_bytes = random_bytes(32);
    proof {
        base64_url_shape(secret_bytes@);
    }
    encode_base64_url(secret_bytes.as_slice())
}

/// A fresh secret of 20 random bytes, in base32 (the form authenticator
/// apps take): 32 symbols of the base32 alphabet.
pub fn generate_base32_secret() -> (res: String)
    ensures
        exists|b: Seq<u8>| b.len() == 20 && res@ == base32_encode_spec(b),
        res@.len() == 32,
        forall|k: int| 0 <= k < res@.len() ==> value_of(#[trigger] res@[k]) is Some,
{
    let secret_bytes = random_bytes(20);
    proof {
        base32_encoded_shape(secret_bytes@);
    }
    base32_encode(secret_bytes.as_slice())
}

} // verus!
