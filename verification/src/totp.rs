//! Time-based one-time passwords (RFC 6238 over HMAC-SHA1, RFC 4226
//! dynamic truncation): 30-second steps and six decimal digits.

use hmac::Mac;
use vstd::prelude::*;
use crate::text::push_char;

verus! {

// ---------------------------------------------------------------------------
// HMAC-SHA1, from the `hmac` and `sha1` crates
// ---------------------------------------------------------------------------

/// A running HMAC-SHA1 computation of the `hmac` crate.
#[verifier::external_body]
pub struct Sha1Mac {
    inner: hmac::Hmac<sha1::Sha1>,
}

/// The key that a running computation was started with.
pub uninterp spec fn mac_key(m: Sha1Mac) -> Seq<u8>;

/// The message bytes that a running computation has been fed so far.
pub uninterp spec fn mac_message(m: Sha1Mac) -> Seq<u8>;

/// HMAC-SHA1 (RFC 2104 over SHA-1) of `message` under `key`, as computed by
/// the `hmac` and `sha1` crates.
pub uninterp spec fn hmac_sha1(key: Seq<u8>, message: Seq<u8>) -> Seq<u8>;

/// Calls `Mac::new_from_slice` for `Hmac<Sha1>`. HMAC takes keys of any
/// length (a long key is hashed first), and the crate's `new_from_slice`
/// always returns `Ok`; the new computation holds `key` and no message.
#[verifier::external_body]
fn sha1_mac_new(key: &[u8]) -> (res: Result<Sha1Mac, ()>)
    ensures
        res is Ok,
        res matches Ok(m) ==> mac_key(m) == key@ && mac_message(m) == Seq::<u8>::empty(),
{
    match <hmac::Hmac<sha1::Sha1> as Mac>::new_from_slice(key) {
        Ok(inner) => Ok(Sha1Mac { inner }),
        Err(_) => Err(()),
    }
}

/// Calls `Mac::update`, which appends `data` to the message.
#[verifier::external_body]
fn sha1_mac_update(m: &mut Sha1Mac, data: &[u8])
    ensures
        mac_key(*final(m)) == mac_key(*old(m)),
        mac_message(*final(m)) == mac_message(*old(m)) + data@,
{
    m.inner.update(data)
}

/// Calls `Mac::finalize` and `CtOutput::into_bytes`: the HMAC-SHA1 tag of
/// the message under the key, which is 20 bytes long (SHA-1's output size).
#[verifier::external_body]
fn sha1_mac_finalize(m: Sha1Mac) -> (tag: Vec<u8>)
    ensures
        tag@ == hmac_sha1(mac_key(m), mac_message(m)),
        tag@.len() == 20,
{
    m.inner.finalize().into_bytes().to_vec()
}

// ---------------------------------------------------------------------------
// Specification
// ---------------------------------------------------------------------------

/// The length of a time step, in seconds.
pub const TIME_STEP: u64 = 30;

/// The eight big-endian bytes of a 64-bit counter.
pub open spec fn be_bytes(c: u64) -> Seq<u8> {
    seq![
        (c / 0x100000000000000) as u8,
        ((c / 0x1000000000000) % 256) as u8,
        ((c / 0x10000000000) % 256) as u8,
        ((c / 0x100000000) % 256) as u8,
        ((c / 0x1000000) % 256) as u8,
        ((c / 0x10000) % 256) as u8,
        ((c / 0x100) % 256) as u8,
        (c % 256) as u8,
    ]
}

/// Dynamic truncation (RFC 4226): the low four bits of the last byte pick an
/// offset, and the four bytes there, with the top bit cleared, are read as a
/// big-endian number.
pub open spec fn dynamic_truncation(tag: Seq<u8>) -> int {
    let o = (tag[19] % 16) as int;
    (tag[o] % 128) * 0x1000000 + tag[o + 1] * 0x10000 + tag[o + 2] * 0x100 + tag[o + 3]
}

/// The character of a decimal digit.
pub open spec fn digit_char(d: int) -> char {
    (48 + d) as char
}

/// `n` written with exactly six decimal digits, leading zeros kept.
pub open spec fn six_digits(n: int) -> Seq<char> {
    seq![
        digit_char((n / 100000) % 10),
        digit_char((n / 10000) % 10),
        digit_char((n / 1000) % 10),
        digit_char((n / 100) % 10),
        digit_char((n / 10) % 10),
        digit_char(n % 10),
    ]
}

/// The code that a 20-byte HMAC tag gives.
#[verifier::opaque]
pub open spec fn code_of_tag(tag: Seq<u8>) -> Seq<char> {
    six_digits(dynamic_truncation(tag) % 1000000)
}

/// The TOTP code of a secret at a Unix time: HMAC-SHA1 of the time step
/// number, truncated to six digits.
pub open spec fn totp_code_spec(secret: Seq<u8>, time: u64) -> Seq<char> {
    code_of_tag(hmac_sha1(secret, be_bytes(time / TIME_STEP)))
}

/// The time offsets, in seconds, at which a submitted code is checked.
pub open spec fn window_offset(k: int) -> int {
    if k == 0 {
        -30
    } else if k == 1 {
        0
    } else {
        30
    }
}

/// `code` is the code of `secret` at the time `t`, which is not negative.
pub open spec fn code_matches_at(secret: Seq<u8>, code: Seq<char>, t: int) -> bool {
    t >= 0 && code == totp_code_spec(secret, t as u64)
}

/// `code` is accepted at `now`: it is the code at `now`, 30 seconds before or
/// 30 seconds after, counting only times that are not negative. The clock
/// value is taken as a signed 64-bit number, as the service reads it.
pub open spec fn code_accepted(secret: Seq<u8>, code: Seq<char>, now: u64) -> bool {
    exists|k: int| 0 <= k < 3 && code_matches_at(secret, code, (now as i64) + window_offset(k))
}

/// Checking `code` at `now` overflows the signed clock arithmetic: the time
/// `now - 30` is always computed first, and `now + 30` only when neither
/// `now - 30` nor `now` matched.
pub open spec fn window_overflows(secret: Seq<u8>, code: Seq<char>, now: u64) -> bool {
    let s = now as i64;
    s < i64::MIN + 30 || (s > i64::MAX - 30 && !code_matches_at(secret, code, s - 30)
        && !code_matches_at(secret, code, s as int))
}

// ---------------------------------------------------------------------------
// Implementation
// ---------------------------------------------------------------------------

proof fn lemma_be_bytes(c: u64)
    by (bit_vector)
    ensures
        (c >> 56u64) & 0xffu64 == (c / 0x100000000000000u64) % 256u64,
        (c >> 48u64) & 0xffu64 == (c / 0x1000000000000u64) % 256u64,
        (c >> 40u64) & 0xffu64 == (c / 0x10000000000u64) % 256u64,
        (c >> 32u64) & 0xffu64 == (c / 0x100000000u64) % 256u64,
        (c >> 24u64) & 0xffu64 == (c / 0x1000000u64) % 256u64,
        (c >> 16u64) & 0xffu64 == (c / 0x10000u64) % 256u64,
        (c >> 8u64) & 0xffu64 == (c / 0x100u64) % 256u64,
        c & 0xffu64 == c % 256u64,
        c / 0x100000000000000u64 < 256,
{
}

/// The big-endian bytes of `c`.
pub fn to_be_bytes(c: u64) -> (res: Vec<u8>)
    ensures
        res@ == be_bytes(c),
{
    proof {
        lemma_be_bytes(c);
    }
    let mut v: Vec<u8> = Vec::new();
    v.push(((c >> 56u64) & 0xff) as u8);
    v.push(((c >> 48u64) & 0xff) as u8);
    v.push(((c >> 40u64) & 0xff) as u8);
    v.push(((c >> 32u64) & 0xff) as u8);
    v.push(((c >> 24u64) & 0xff) as u8);
    v.push(((c >> 16u64) & 0xff) as u8);
    v.push(((c >> 8u64) & 0xff) as u8);
    v.push((c & 0xff) as u8);
    assert(v@ =~= be_bytes(c));
    v
}

proof fn lemma_truncation(a: u8, b: u8, c: u8, d: u8, last: u8)
    by (bit_vector)
    ensures
        (((a & 0x7f) as u32) << 24u32 | (b as u32) << 16u32 | (c as u32) << 8u32 | (d as u32)) as int
            == (a % 128) as int * 0x1000000 + b as int * 0x10000 + c as int * 0x100 + d as int,
        last & 0x0f == last % 16,
{
}

/// `n`, which is below one million, as six decimal digits.
pub fn format_six_digits(n: u32) -> (res: String)
    requires
        n < 1000000,
    ensures
        res@ == six_digits(n as int),
{
    let mut s = String::new();
    push_char(&mut s, ((48 + (n / 100000) % 10) as u8) as char);
    push_char(&mut s, ((48 + (n / 10000) % 10) as u8) as char);
    push_char(&mut s, ((48 + (n / 1000) % 10) as u8) as char);
    push_char(&mut s, ((48 + (n / 100) % 10) as u8) as char);
    push_char(&mut s, ((48 + (n / 10) % 10) as u8) as char);
    push_char(&mut s, ((48 + n % 10) as u8) as char);
    assert(s@ =~= six_digits(n as int));
    s
}

/// The six-digit code of a 20-byte HMAC tag (dynamic truncation, then the
/// remainder by one million, zero-padded).
pub fn code_from_tag(tag: &[u8]) -> (code: String)
    requires
        tag@.len() == 20,
    ensures
        code@ == code_of_tag(tag@),
{
    proof {
        lemma_truncation(tag@[(tag@[19] % 16) as int], tag@[(tag@[19] % 16) + 1],
            tag@[(tag@[19] % 16) + 2], tag@[(tag@[19] % 16) + 3], tag@[19]);
    }
    let offset = (tag[19] & 0x0f) as usize;
    let bin_code: u32 = ((tag[offset] & 0x7f) as u32) << 24u32 | (tag[offset + 1] as u32) << 16u32
        | (tag[offset + 2] as u32) << 8u32 | (tag[offset + 3] as u32);
    let code = bin_code % 1_000_000;
    proof {
        reveal(code_of_tag);
    }
    format_six_digits(code)
}

/// The TOTP code of `secret` at the Unix time `time`.
pub fn calculate_totp(secret: &[u8], time: u64) -> (res: Result<String, &'static str>)
    ensures
        res is Ok,
        res matches Ok(code) ==> code@ == totp_code_spec(secret@, time),
{
    let counter = time / TIME_STEP;
    let counter_bytes = to_be_bytes(counter);
    let mut mac = match sha1_mac_new(secret) {
        Ok(m) => m,
        Err(_) => {
            return Err("Invalid key length");
        },
    };
    sha1_mac_update(&mut mac, counter_bytes.as_slice());
    let tag = sha1_mac_finalize(mac);
    assert(Seq::<u8>::empty() + be_bytes(counter) =~= be_bytes(counter));
    Ok(code_from_tag(tag.as_slice()))
}

/// Checks `code` against the codes of `secret` at `now - 30`, `now` and
/// `now + 30` (skipping negative times), in that order, stopping at the first
/// match. An error is a failed code computation, reported with its message.
pub fn check_code(secret: &[u8], code: &String, now: u64) -> (res: Result<bool, String>)
    requires
        !window_overflows(secret@, code@, now),
    ensures
        res == Ok::<bool, String>(code_accepted(secret@, code@, now)),
{
    let times_to_check: [i64; 3] = [-30, 0, 30];
    let now_signed = #[verifier::truncate] (now as i64);
    let mut is_valid = false;
    let mut k: usize = 0;
    while k < 3 && !is_valid
        invariant
            k <= 3,
            now_signed == now as i64,
            !window_overflows(secret@, code@, now),
            times_to_check@ == seq![-30i64, 0i64, 30i64],
            is_valid ==> code_accepted(secret@, code@, now),
            !is_valid ==> forall|j: int|
                0 <= j < k ==> !code_matches_at(secret@, code@, now_signed + #[trigger] window_offset(j)),
        decreases 2 * (3 - k) + (if is_valid { 0int } else { 1int }),
    {
        assert(times_to_check@[k as int] == window_offset(k as int));
        if k == 2 {
            assert(window_offset(0) == -30 && window_offset(1) == 0);
            assert(now_signed <= i64::MAX - 30);
        }
        let check_time = now_signed + times_to_check[k];
        if check_time < 0 {
            k = k + 1;
            continue;
        }
        let expected = match calculate_totp(secret, check_time as u64) {
            Ok(c) => c,
            Err(e) => {
                let mut msg = String::from_str("TOTP calculation error: ");
                msg.append(e);
                return Err(msg);
            },
        };
        if *code == expected {
            assert(code_matches_at(secret@, code@, now_signed + window_offset(k as int)));
            is_valid = true;
        } else {
            k = k + 1;
        }
    }
    proof {
        if !is_valid {
            assert(k == 3);
            if code_accepted(secret@, code@, now) {
                let j = choose|j: int| 0 <= j < 3 && code_matches_at(secret@, code@, (now as i64) + window_offset(j));
                assert(!code_matches_at(secret@, code@, now_signed + window_offset(j)));
            }
        }
    }
    Ok(is_valid)
}

/// Whether checking `code` at `now` would overflow the clock arithmetic.
pub fn window_would_overflow(secret: &[u8], code: &String, now: u64) -> (res: bool)
    ensures
        res == window_overflows(secret@, code@, now),
{
    let s = #[verifier::truncate] (now as i64);
    if s < i64::MIN + 30 {
        return true;
    }
    if s <= i64::MAX - 30 {
        return false;
    }
    let before = match calculate_totp(secret, (s - 30) as u64) {
        Ok(c) => c,
        Err(_) => {
            return false;
        },
    };
    let current = match calculate_totp(secret, s as u64) {
        Ok(c) => c,
        Err(_) => {
            return false;
        },
    };
    !(*code == before) && !(*code == current)
}

// ---------------------------------------------------------------------------
// Laws
// ---------------------------------------------------------------------------

/// A code is always six characters, each a decimal digit.
pub proof fn code_is_six_digits(secret: Seq<u8>, time: u64)
    ensures
        totp_code_spec(secret, time).len() == 6,
        forall|i: int| 0 <= i < 6 ==> '0' <= #[trigger] totp_code_spec(secret, time)[i] <= '9',
{
    reveal(code_of_tag);
}

/// Two times in the same 30-second step give the same code.
pub proof fn code_constant_within_step(secret: Seq<u8>, t1: u64, t2: u64)
    requires
        t1 / 30 == t2 / 30,
    ensures
        totp_code_spec(secret, t1) == totp_code_spec(secret, t2),
{
}

/// A code computed at time `s` is accepted at time `t` when `s` is `t`,
/// `t - 30` or `t + 30` (and not negative): in particular the code of the
/// current time is always accepted.
pub proof fn code_accepted_within_window(secret: Seq<u8>, t: u64, k: int)
    requires
        t <= i64::MAX - 30,
        0 <= k < 3,
        t + window_offset(k) >= 0,
    ensures
        code_accepted(secret, totp_code_spec(secret, (t + window_offset(k)) as u64), t),
{
    assert(t as i64 == t) by (bit_vector)
        requires
            t <= 0x7fff_ffff_ffff_ffe1u64;
    assert(code_matches_at(secret, totp_code_spec(secret, (t + window_offset(k)) as u64),
        (t as i64) + window_offset(k)));
}

/// The number that six decimal digit characters spell.
pub open spec fn decimal_value(d: Seq<char>) -> int {
    (d[0] as int - 48) * 100000 + (d[1] as int - 48) * 10000 + (d[2] as int - 48) * 1000 + (d[3] as int
        - 48) * 100 + (d[4] as int - 48) * 10 + (d[5] as int - 48)
}

/// The code of a 20-byte HMAC tag follows RFC 4226: with `o` the low four
/// bits of the last byte, the four bytes at `o` read big-endian with the top
/// bit cleared, taken modulo one million, written as six decimal digits.
pub proof fn code_of_tag_is_rfc4226(tag: Seq<u8>)
    requires
        tag.len() == 20,
    ensures
        ({
            let o = (tag[19] % 16) as int;
            let v = ((tag[o] % 128) * 16777216 + tag[o + 1] * 65536 + tag[o + 2] * 256 + tag[o + 3])
                % 1000000;
            &&& code_of_tag(tag).len() == 6
            &&& forall|i: int| 0 <= i < 6 ==> '0' <= #[trigger] code_of_tag(tag)[i] <= '9'
            &&& decimal_value(code_of_tag(tag)) == v
        }),
{
    reveal(code_of_tag);
    let n = dynamic_truncation(tag) % 1000000;
    assert(0 <= n < 1000000);
    assert(n == ((n / 100000) % 10) * 100000 + ((n / 10000) % 10) * 10000 + ((n / 1000) % 10) * 1000
        + ((n / 100) % 10) * 100 + ((n / 10) % 10) * 10 + n % 10) by (nonlinear_arith)
        requires
            0 <= n < 1000000,
    ;
}

/// At a clock reading with room on both sides, a code is accepted exactly
/// when it is the code of `now - 30` (when that is not negative), of `now`,
/// or of `now + 30`; any other code is refused.
pub proof fn accepted_iff_window_code(secret: Seq<u8>, code: Seq<char>, now: u64)
    requires
        now <= i64::MAX - 30,
    ensures
        code_accepted(secret, code, now) <==> ((now >= 30 && code == totp_code_spec(secret, (now - 30) as u64))
            || code == totp_code_spec(secret, now) || code == totp_code_spec(secret, (now + 30) as u64)),
{
    assert(now as i64 == now) by (bit_vector)
        requires
            now <= 0x7fff_ffff_ffff_ffe1u64;
    if code_accepted(secret, code, now) {
        let k = choose|k: int| 0 <= k < 3 && code_matches_at(secret, code, (now as i64) + window_offset(k));
        assert(k == 0 || k == 1 || k == 2);
    }
    if now >= 30 && code == totp_code_spec(secret, (now - 30) as u64) {
        assert(code_matches_at(secret, code, (now as i64) + window_offset(0)));
    }
    if code == totp_code_spec(secret, now) {
        assert(code_matches_at(secret, code, (now as i64) + window_offset(1)));
    }
    if code == totp_code_spec(secret, (now + 30) as u64) {
        assert(code_matches_at(secret, code, (now as i64) + window_offset(2)));
    }
}

} // verus!
