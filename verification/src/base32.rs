//! Base32 (RFC 4648 alphabet, no padding) for TOTP secrets.
//!
//! Bytes are read in chunks of five; each chunk of `n` bytes gives 2, 4, 5, 7
//! or 8 symbols for `n` = 1..5. Decoding drops spaces, upper-cases the input
//! and turns every symbol into five bits, emitting a byte whenever eight or
//! more bits are buffered; leftover bits at the end are dropped.

use vstd::prelude::*;
use crate::text::{push_char, to_uppercase, uppercase_spec, upper_of, ascii_upper, ascii_lower};

verus! {

// ---------------------------------------------------------------------------
// Symbols
// ---------------------------------------------------------------------------

/// The symbol for a five-bit value: `A`..`Z` for 0..25, `2`..`7` for 26..31.
pub open spec fn symbol_of(v: u8) -> char {
    if v < 26 {
        (65 + v) as char
    } else {
        (24 + v) as char
    }
}

/// The five-bit value of a symbol, if it is one.
pub open spec fn value_of(c: char) -> Option<u8> {
    if 'A' <= c && c <= 'Z' {
        Some(((c as u32) - 65) as u8)
    } else if '2' <= c && c <= '7' {
        Some(((c as u32) - 24) as u8)
    } else {
        None
    }
}

fn symbol(v: u8) -> (c: char)
    requires
        v < 32,
    ensures
        c == symbol_of(v),
{
    if v < 26 {
        (65u8 + v) as char
    } else {
        (24u8 + v) as char
    }
}

// ---------------------------------------------------------------------------
// Encoding
// ---------------------------------------------------------------------------

/// Byte `i` of a chunk, or 0 past its end.
pub open spec fn byte_or_zero(c: Seq<u8>, i: int) -> int {
    if 0 <= i < c.len() {
        c[i] as int
    } else {
        0
    }
}

/// The eight five-bit groups of a chunk of at most five bytes, read big-endian
/// after padding the chunk with zero bytes to five.
pub open spec fn chunk_groups(c: Seq<u8>) -> Seq<u8> {
    let b0 = byte_or_zero(c, 0);
    let b1 = byte_or_zero(c, 1);
    let b2 = byte_or_zero(c, 2);
    let b3 = byte_or_zero(c, 3);
    let b4 = byte_or_zero(c, 4);
    seq![
        (b0 / 8) as u8,
        ((b0 % 8) * 4 + b1 / 64) as u8,
        ((b1 % 64) / 2) as u8,
        ((b1 % 2) * 16 + b2 / 16) as u8,
        ((b2 % 16) * 2 + b3 / 128) as u8,
        ((b3 % 128) / 4) as u8,
        ((b3 % 4) * 8 + b4 / 32) as u8,
        (b4 % 32) as u8,
    ]
}

/// How many symbols a chunk of `n` bytes gives: as many as it takes to cover
/// its `8 * n` bits.
pub open spec fn symbol_count(n: int) -> int {
    if n >= 5 {
        8
    } else if n == 4 {
        7
    } else if n == 3 {
        5
    } else if n == 2 {
        4
    } else if n == 1 {
        2
    } else {
        0
    }
}

/// The symbols of one chunk.
pub open spec fn encode_chunk(c: Seq<u8>) -> Seq<char> {
    let g = chunk_groups(c);
    Seq::new(symbol_count(c.len() as int) as nat, |k: int| symbol_of(g[k]))
}

/// Base32 of a byte sequence: the symbols of its chunks of five, in order.
pub open spec fn base32_encode_spec(b: Seq<u8>) -> Seq<char>
    decreases b.len(),
{
    if b.len() == 0 {
        seq![]
    } else if b.len() <= 5 {
        encode_chunk(b)
    } else {
        encode_chunk(b.take(5)) + base32_encode_spec(b.skip(5))
    }
}

proof fn lemma_groups(b0: u8, b1: u8, b2: u8, b3: u8, b4: u8)
    by (bit_vector)
    ensures
        b0 >> 3 == b0 / 8,
        ((b0 & 0x07) << 2) | (b1 >> 6) == (b0 % 8) * 4 + b1 / 64,
        (b1 & 0x3F) >> 1 == (b1 % 64) / 2,
        ((b1 & 0x01) << 4) | (b2 >> 4) == (b1 % 2) * 16 + b2 / 16,
        ((b2 & 0x0F) << 1) | (b3 >> 7) == (b2 % 16) * 2 + b3 / 128,
        (b3 & 0x7F) >> 2 == (b3 % 128) / 4,
        ((b3 & 0x03) << 3) | (b4 >> 5) == (b3 % 4) * 8 + b4 / 32,
        b4 & 0x1F == b4 % 32,
{
}

/// Base32 of `bytes`, without padding.
pub fn base32_encode(bytes: &[u8]) -> (res: String)
    ensures
        res@ == base32_encode_spec(bytes@),
{
    let mut result = String::new();
    let len = bytes.len();
    let mut i: usize = 0;
    assert(bytes@.skip(0) =~= bytes@);
    while i < len
        invariant
            i <= len,
            len == bytes@.len(),
            base32_encode_spec(bytes@) == result@ + base32_encode_spec(bytes@.skip(i as int)),
        decreases len - i,
    {
        let n: usize = if len - i >= 5 {
            5
        } else {
            len - i
        };
        let ghost chunk = bytes@.subrange(i as int, i + n);
        let ghost before = result@;
        let b0 = bytes[i];
        let b1 = if n >= 2 {
            bytes[i + 1]
        } else {
            0
        };
        let b2 = if n >= 3 {
            bytes[i + 2]
        } else {
            0
        };
        let b3 = if n >= 4 {
            bytes[i + 3]
        } else {
            0
        };
        let b4 = if n >= 5 {
            bytes[i + 4]
        } else {
            0
        };
        proof {
            lemma_groups(b0, b1, b2, b3, b4);
            assert(byte_or_zero(chunk, 0) == b0);
            assert(byte_or_zero(chunk, 1) == b1);
            assert(byte_or_zero(chunk, 2) == b2);
            assert(byte_or_zero(chunk, 3) == b3);
            assert(byte_or_zero(chunk, 4) == b4);
        }
        let ghost g = chunk_groups(chunk);
        // Five bytes give eight symbols; a shorter last chunk gives fewer.
        push_char(&mut result, symbol(b0 >> 3));
        push_char(&mut result, symbol(((b0 & 0x07) << 2) | (b1 >> 6)));
        if n >= 2 {
            push_char(&mut result, symbol((b1 & 0x3F) >> 1));
            push_char(&mut result, symbol(((b1 & 0x01) << 4) | (b2 >> 4)));
        }
        if n >= 3 {
            push_char(&mut result, symbol(((b2 & 0x0F) << 1) | (b3 >> 7)));
        }
        if n >= 4 {
            push_char(&mut result, symbol((b3 & 0x7F) >> 2));
            push_char(&mut result, symbol(((b3 & 0x03) << 3) | (b4 >> 5)));
        }
        if n >= 5 {
            push_char(&mut result, symbol(b4 & 0x1F));
        }
        proof {
            assert(result@ =~= before + encode_chunk(chunk));
            let rest = bytes@.skip(i as int);
            if rest.len() <= 5 {
                assert(rest =~= chunk);
                assert(bytes@.skip(i + n) =~= Seq::<u8>::empty());
            } else {
                assert(rest.take(5) =~= chunk);
                assert(rest.skip(5) =~= bytes@.skip(i + n));
            }
        }
        i = i + n;
    }
    proof {
        assert(bytes@.skip(len as int) =~= Seq::<u8>::empty());
        assert(result@ + Seq::<char>::empty() =~= result@);
    }
    result
}

// ---------------------------------------------------------------------------
// Decoding
// ---------------------------------------------------------------------------

/// `2^n` for the bit counts the decoder holds (0..7).
pub open spec fn pow2_small(n: int) -> int {
    if n <= 0 {
        1
    } else if n == 1 {
        2
    } else if n == 2 {
        4
    } else if n == 3 {
        8
    } else if n == 4 {
        16
    } else if n == 5 {
        32
    } else if n == 6 {
        64
    } else {
        128
    }
}

/// The decoder's state: the bytes emitted so far, the buffered bits as a
/// number, and how many bits are buffered.
pub type DecodeState = (Seq<u8>, int, int);

/// Feed one five-bit value: shift it into the buffer, and once eight or more
/// bits are buffered, emit the top eight as a byte and keep the rest.
pub open spec fn decode_step(st: DecodeState, v: int) -> DecodeState {
    let buffer = st.1 * 32 + v;
    let bits = st.2 + 5;
    if bits >= 8 {
        let rest = bits - 8;
        (st.0.push((buffer / pow2_small(rest)) as u8), buffer % pow2_small(rest), rest)
    } else {
        (st.0, buffer, bits)
    }
}

/// Decoding from a state: the emitted bytes once every symbol is fed, or the
/// first character that is not a symbol.
pub open spec fn decode_from(st: DecodeState, s: Seq<char>) -> Result<Seq<u8>, char>
    decreases s.len(),
{
    if s.len() == 0 {
        Ok(st.0)
    } else {
        match value_of(s[0]) {
            Some(v) => decode_from(decode_step(st, v as int), s.drop_first()),
            None => Err(s[0]),
        }
    }
}

/// Decoding of a string made of upper-case symbols.
pub open spec fn decode_symbols_spec(s: Seq<char>) -> Result<Seq<u8>, char> {
    decode_from((Seq::empty(), 0, 0), s)
}

/// `s` with every space removed.
pub open spec fn without_spaces(s: Seq<char>) -> Seq<char>
    decreases s.len(),
{
    if s.len() == 0 {
        s
    } else if s.last() == ' ' {
        without_spaces(s.drop_last())
    } else {
        without_spaces(s.drop_last()).push(s.last())
    }
}

/// The message that reports a character outside the alphabet.
pub open spec fn invalid_symbol_message(c: char) -> Seq<char> {
    "Invalid base32 character: "@.push(c)
}

/// Decoding of user input: spaces dropped, the rest upper-cased (as
/// `str::to_uppercase` does), then decoded; an error names the first
/// character that is not a symbol.
pub open spec fn base32_decode_spec(input: Seq<char>) -> Result<Seq<u8>, Seq<char>> {
    match decode_symbols_spec(uppercase_spec(without_spaces(input))) {
        Ok(b) => Ok(b),
        Err(c) => Err(invalid_symbol_message(c)),
    }
}

/// The decoder never buffers more than seven bits between symbols.
pub open spec fn state_ok(st: DecodeState) -> bool {
    0 <= st.2 < 8 && 0 <= st.1 < pow2_small(st.2)
}

proof fn lemma_step_ok(st: DecodeState, v: int)
    requires
        state_ok(st),
        0 <= v < 32,
    ensures
        state_ok(decode_step(st, v)),
        st.2 + 5 >= 8 ==> st.1 * 32 + v < 256 * pow2_small(st.2 - 3),
{
}

proof fn lemma_shift_mask(buffer: u64, bits: u64, v: u64)
    by (bit_vector)
    requires
        bits < 8,
        buffer < 128,
        v < 32,
    ensures
        (buffer << 5) | v == buffer * 32 + v,
{
}

proof fn lemma_emit(buffer: u64, rest: u64)
    by (bit_vector)
    requires
        rest < 8,
        buffer < 0x2000,
    ensures
        buffer >> rest == buffer / (1u64 << rest),
        buffer & (((1u64 << rest) - 1) as u64) == buffer % (1u64 << rest),
        (1u64 << rest) >= 1,
{
}

proof fn lemma_pow2_small(rest: u64)
    requires
        rest < 8,
    ensures
        (1u64 << rest) == pow2_small(rest as int),
{
    if rest == 0 {
        assert(1u64 << 0u64 == 1) by (bit_vector);
    } else if rest == 1 {
        assert(1u64 << 1u64 == 2) by (bit_vector);
    } else if rest == 2 {
        assert(1u64 << 2u64 == 4) by (bit_vector);
    } else if rest == 3 {
        assert(1u64 << 3u64 == 8) by (bit_vector);
    } else if rest == 4 {
        assert(1u64 << 4u64 == 16) by (bit_vector);
    } else if rest == 5 {
        assert(1u64 << 5u64 == 32) by (bit_vector);
    } else if rest == 6 {
        assert(1u64 << 6u64 == 64) by (bit_vector);
    } else {
        assert(1u64 << 7u64 == 128) by (bit_vector);
    }
}

/// Decodes a string of upper-case base32 symbols; the error is the message
/// that names the first character outside the alphabet.
pub fn decode_symbols(s: &str) -> (res: Result<Vec<u8>, String>)
    ensures
        match res {
            Ok(bytes) => decode_symbols_spec(s@) == Ok::<Seq<u8>, char>(bytes@),
            Err(msg) => exists|c: char|
                decode_symbols_spec(s@) == Err::<Seq<u8>, char>(c) && msg@ == invalid_symbol_message(c),
        },
{
    broadcast use vstd::string::group_string_axioms;

    let mut result: Vec<u8> = Vec::new();
    let mut buffer: u64 = 0;
    let mut bits_left: u64 = 0;
    let ghost mut st: DecodeState = (Seq::empty(), 0, 0);
    assert(s@.skip(0) =~= s@);
    for c in it: s.chars()
        invariant
            it.seq() == s@,
            st == (result@, buffer as int, bits_left as int),
            state_ok(st),
            decode_symbols_spec(s@) == decode_from(st, s@.skip(it.index() as int)),
    {
        let ghost i = it.index() as int;
        assert(s@.skip(i)[0] == c);
        assert(s@.skip(i).drop_first() =~= s@.skip(i + 1));
        let value: u64 = if 'A' <= c && c <= 'Z' {
            ((c as u32) - 65) as u64
        } else if '2' <= c && c <= '7' {
            ((c as u32) - 24) as u64
        } else {
            let mut msg = String::from_str("Invalid base32 character: ");
            push_char(&mut msg, c);
            assert(decode_from(st, s@.skip(i)) == Err::<Seq<u8>, char>(c));
            assert(msg@ == invalid_symbol_message(c));
            return Err(msg);
        };
        proof {
            lemma_step_ok(st, value as int);
            lemma_shift_mask(buffer, bits_left, value);
        }
        let ghost next = decode_step(st, value as int);
        buffer = (buffer << 5) | value;
        bits_left = bits_left + 5;
        if bits_left >= 8 {
            bits_left = bits_left - 8;
            proof {
                lemma_emit(buffer, bits_left);
                lemma_pow2_small(bits_left);
            }
            result.push((buffer >> bits_left) as u8);
            buffer = buffer & ((1u64 << bits_left) - 1);
        }
        proof {
            st = next;
        }
    }
    proof {
        assert(s@.skip(s@.len() as int) =~= Seq::<char>::empty());
    }
    Ok(result)
}

/// `s` with every space removed.
pub fn remove_spaces(s: &str) -> (res: String)
    ensures
        res@ == without_spaces(s@),
{
    broadcast use vstd::string::group_string_axioms;

    let mut r = String::new();
    for c in it: s.chars()
        invariant
            it.seq() == s@,
            r@ == without_spaces(s@.take(it.index() as int)),
    {
        let ghost i = it.index() as int;
        assert(s@.take(i + 1).drop_last() =~= s@.take(i));
        if c != ' ' {
            push_char(&mut r, c);
        }
    }
    assert(s@.take(s@.len() as int) =~= s@);
    r
}

/// Decodes a base32 secret as typed by a user: spaces are dropped and the
/// rest is upper-cased before decoding.
pub fn base32_decode(input: &str) -> (res: Result<Vec<u8>, String>)
    ensures
        match res {
            Ok(bytes) => base32_decode_spec(input@) == Ok::<Seq<u8>, Seq<char>>(bytes@),
            Err(msg) => base32_decode_spec(input@) == Err::<Seq<u8>, Seq<char>>(msg@),
        },
{
    let cleaned = remove_spaces(input);
    let upper = to_uppercase(cleaned.as_str());
    decode_symbols(upper.as_str())
}

// ---------------------------------------------------------------------------
// Decoding undoes encoding
// ---------------------------------------------------------------------------

/// The decoder's state after it is fed the five-bit values `vals`.
pub open spec fn feed(st: DecodeState, vals: Seq<u8>) -> DecodeState
    decreases vals.len(),
{
    if vals.len() == 0 {
        st
    } else {
        feed(decode_step(st, vals[0] as int), vals.drop_first())
    }
}

proof fn lemma_symbol_value(v: u8)
    requires
        v < 32,
    ensures
        value_of(symbol_of(v)) == Some(v),
        'A' <= symbol_of(v) <= 'Z' || '2' <= symbol_of(v) <= '7',
{
}

proof fn lemma_decode_symbols_of(st: DecodeState, vals: Seq<u8>, rest: Seq<char>)
    requires
        forall|k: int| 0 <= k < vals.len() ==> vals[k] < 32,
    ensures
        decode_from(st, Seq::new(vals.len(), |k: int| symbol_of(vals[k])) + rest)
            == decode_from(feed(st, vals), rest),
    decreases vals.len(),
{
    let syms = Seq::new(vals.len(), |k: int| symbol_of(vals[k]));
    if vals.len() > 0 {
        lemma_symbol_value(vals[0]);
        let tail = vals.drop_first();
        assert((syms + rest).drop_first() =~= Seq::new(tail.len(), |k: int| symbol_of(tail[k])) + rest);
        lemma_decode_symbols_of(decode_step(st, vals[0] as int), tail, rest);
    } else {
        assert(syms + rest =~= rest);
    }
}

proof fn lemma_groups_small(c: Seq<u8>)
    ensures
        forall|k: int| 0 <= k < 8 ==> #[trigger] chunk_groups(c)[k] < 32,
        chunk_groups(c).len() == 8,
{
    let b0 = byte_or_zero(c, 0);
    let b1 = byte_or_zero(c, 1);
    let b2 = byte_or_zero(c, 2);
    let b3 = byte_or_zero(c, 3);
    let b4 = byte_or_zero(c, 4);
    assert(0 <= b0 < 256 && 0 <= b1 < 256 && 0 <= b2 < 256 && 0 <= b3 < 256 && 0 <= b4 < 256);
}

proof fn lemma_feed_chunk(out: Seq<u8>, c: Seq<u8>)
    requires
        1 <= c.len() <= 5,
    ensures
        feed((out, 0, 0), chunk_groups(c).take(symbol_count(c.len() as int))).0 == out + c,
        c.len() == 5 ==> feed((out, 0, 0), chunk_groups(c).take(8)) == (out + c, 0int, 0int),
{
    reveal_with_fuel(feed, 9);
    let b0 = byte_or_zero(c, 0);
    let b1 = byte_or_zero(c, 1);
    let b2 = byte_or_zero(c, 2);
    let b3 = byte_or_zero(c, 3);
    let b4 = byte_or_zero(c, 4);
    assert(0 <= b0 < 256 && 0 <= b1 < 256 && 0 <= b2 < 256 && 0 <= b3 < 256 && 0 <= b4 < 256);
    let g = chunk_groups(c);
    let n = c.len() as int;
    let vals = g.take(symbol_count(n));
    let s0: DecodeState = (out, 0, 0);
    let s1 = decode_step(s0, g[0] as int);
    let s2 = decode_step(s1, g[1] as int);
    assert(s2 == (out.push(b0 as u8), b1 / 64, 2int));
    assert(vals.drop_first().drop_first() =~= g.subrange(2, symbol_count(n)));
    if n == 1 {
        assert(out.push(b0 as u8) =~= out + c);
    } else {
        let s3 = decode_step(s2, g[2] as int);
        let s4 = decode_step(s3, g[3] as int);
        assert(s3 == (out.push(b0 as u8), b1 / 2, 7int));
        assert(s4 == (out.push(b0 as u8).push(b1 as u8), b2 / 16, 4int));
        if n == 2 {
            assert(out.push(b0 as u8).push(b1 as u8) =~= out + c);
        } else {
            let s5 = decode_step(s4, g[4] as int);
            assert(s5 == (out.push(b0 as u8).push(b1 as u8).push(b2 as u8), b3 / 128, 1int));
            if n == 3 {
                assert(out.push(b0 as u8).push(b1 as u8).push(b2 as u8) =~= out + c);
            } else {
                let s6 = decode_step(s5, g[5] as int);
                let s7 = decode_step(s6, g[6] as int);
                assert(s6 == (out.push(b0 as u8).push(b1 as u8).push(b2 as u8), b3 / 4, 6int));
                assert(s7 == (out.push(b0 as u8).push(b1 as u8).push(b2 as u8).push(b3 as u8),
                    b4 / 32, 3int));
                if n == 4 {
                    assert(out.push(b0 as u8).push(b1 as u8).push(b2 as u8).push(b3 as u8) =~= out + c);
                } else {
                    let s8 = decode_step(s7, g[7] as int);
                    assert(s8 == (out.push(b0 as u8).push(b1 as u8).push(b2 as u8).push(b3 as u8).push(b4 as u8), 0int, 0int));
                    assert(out.push(b0 as u8).push(b1 as u8).push(b2 as u8).push(b3 as u8).push(b4 as u8) =~= out + c);
                }
            }
        }
    }
}

proof fn lemma_decode_encoded(out: Seq<u8>, b: Seq<u8>)
    ensures
        decode_from((out, 0, 0), base32_encode_spec(b)) == Ok::<Seq<u8>, char>(out + b),
    decreases b.len(),
{
    if b.len() == 0 {
        assert(out + b =~= out);
    } else {
        let c = if b.len() <= 5 { b } else { b.take(5) };
        let rest = if b.len() <= 5 { Seq::<char>::empty() } else { base32_encode_spec(b.skip(5)) };
        let g = chunk_groups(c);
        let vals = g.take(symbol_count(c.len() as int));
        lemma_groups_small(c);
        lemma_feed_chunk(out, c);
        assert(encode_chunk(c) =~= Seq::new(vals.len(), |k: int| symbol_of(vals[k])));
        lemma_decode_symbols_of((out, 0, 0), vals, rest);
        if b.len() <= 5 {
            assert(encode_chunk(c) + rest =~= encode_chunk(c));
            assert(out + c =~= out + b);
        } else {
            assert(vals =~= g.take(8));
            lemma_decode_encoded(out + c, b.skip(5));
            assert(out + c + b.skip(5) =~= out + b);
        }
    }
}

proof fn lemma_encoded_symbols(b: Seq<u8>)
    ensures
        forall|k: int| 0 <= k < base32_encode_spec(b).len() ==>
            'A' <= #[trigger] base32_encode_spec(b)[k] <= 'Z' || '2' <= base32_encode_spec(b)[k] <= '7',
    decreases b.len(),
{
    if b.len() > 0 {
        let c = if b.len() <= 5 { b } else { b.take(5) };
        lemma_groups_small(c);
        assert forall|k: int| 0 <= k < encode_chunk(c).len() implies
            'A' <= #[trigger] encode_chunk(c)[k] <= 'Z' || '2' <= encode_chunk(c)[k] <= '7' by {
            lemma_symbol_value(chunk_groups(c)[k]);
        }
        if b.len() > 5 {
            lemma_encoded_symbols(b.skip(5));
            let e = base32_encode_spec(b);
            let h = encode_chunk(c);
            let t = base32_encode_spec(b.skip(5));
            assert(e == h + t);
            assert forall|k: int| 0 <= k < e.len() implies
                'A' <= #[trigger] e[k] <= 'Z' || '2' <= e[k] <= '7' by {
                if k < h.len() {
                    assert(e[k] == h[k]);
                } else {
                    assert(e[k] == t[k - h.len()]);
                }
            }
        }
    }
}

proof fn lemma_without_spaces_id(s: Seq<char>)
    requires
        forall|k: int| 0 <= k < s.len() ==> s[k] != ' ',
    ensures
        without_spaces(s) == s,
    decreases s.len(),
{
    if s.len() > 0 {
        lemma_without_spaces_id(s.drop_last());
        assert(s.drop_last().push(s.last()) =~= s);
    }
}

/// Decoding gives back the bytes that were encoded: for every byte sequence
/// `b`, `base32_decode(base32_encode(b))` is `Ok(b)`.
pub proof fn base32_roundtrip(b: Seq<u8>)
    ensures
        base32_decode_spec(base32_encode_spec(b)) == Ok::<Seq<u8>, Seq<char>>(b),
        decode_symbols_spec(base32_encode_spec(b)) == Ok::<Seq<u8>, char>(b),
{
    let e = base32_encode_spec(b);
    lemma_encoded_symbols(b);
    lemma_without_spaces_id(e);
    lemma_uppercase_fixed(e);
    lemma_decode_encoded(Seq::empty(), b);
    assert(Seq::<u8>::empty() + b =~= b);
}

/// A chunk of `n` bytes gives `ceil(8n/5)` symbols, so base32 of `b` has
/// `ceil(8|b|/5)` symbols, each from the alphabet `A`..`Z`, `2`..`7`.
pub proof fn base32_encoded_shape(b: Seq<u8>)
    ensures
        base32_encode_spec(b).len() == (8 * b.len() + 4) / 5,
        forall|k: int| 0 <= k < base32_encode_spec(b).len() ==>
            value_of(#[trigger] base32_encode_spec(b)[k]) is Some,
    decreases b.len(),
{
    lemma_encoded_symbols(b);
    if b.len() > 5 {
        base32_encoded_shape(b.skip(5));
    }
}

proof fn lemma_without_spaces_idempotent(s: Seq<char>)
    ensures
        without_spaces(without_spaces(s)) == without_spaces(s),
        forall|k: int| 0 <= k < without_spaces(s).len() ==> #[trigger] without_spaces(s)[k] != ' ',
    decreases s.len(),
{
    if s.len() > 0 {
        lemma_without_spaces_idempotent(s.drop_last());
        let r = without_spaces(s.drop_last());
        if s.last() != ' ' {
            assert(r.push(s.last()).drop_last() =~= r);
            assert forall|k: int| 0 <= k < r.push(s.last()).len() implies #[trigger] r.push(
                s.last(),
            )[k] != ' ' by {
                if k < r.len() {
                    assert(r.push(s.last())[k] == r[k]);
                }
            }
        }
    }
}

/// Spaces in the input make no difference to decoding.
pub proof fn base32_decode_ignores_spaces(input: Seq<char>)
    ensures
        base32_decode_spec(without_spaces(input)) == base32_decode_spec(input),
{
    lemma_without_spaces_idempotent(input);
}

proof fn lemma_uppercase_fixed(x: Seq<char>)
    requires
        forall|k: int| 0 <= k < x.len() ==> 'A' <= #[trigger] x[k] <= 'Z' || '2' <= x[k] <= '7',
    ensures
        uppercase_spec(x) == x,
    decreases x.len(),
{
    if x.len() > 0 {
        lemma_uppercase_fixed(x.drop_last());
        assert(x[x.len() - 1] == x.last());
        assert(upper_of(x.last()) == seq![x.last()]);
        assert(x.drop_last().push(x.last()) =~= x);
        assert(x.drop_last() + seq![x.last()] =~= x);
    }
}

proof fn lemma_without_spaces_upper(s: Seq<char>)
    ensures
        without_spaces(s).map_values(|c: char| ascii_upper(c)) == without_spaces(
            s.map_values(|c: char| ascii_upper(c)),
        ),
    decreases s.len(),
{
    if s.len() > 0 {
        let u = s.map_values(|c: char| ascii_upper(c));
        lemma_without_spaces_upper(s.drop_last());
        assert(u.drop_last() =~= s.drop_last().map_values(|c: char| ascii_upper(c)));
        assert(u.last() == ascii_upper(s.last()));
        let r = without_spaces(s.drop_last());
        if s.last() != ' ' {
            assert(r.push(s.last()).map_values(|c: char| ascii_upper(c)) =~= r.map_values(
                |c: char| ascii_upper(c),
            ).push(ascii_upper(s.last())));
        }
    }
}

proof fn lemma_uppercase_ascii_case(x: Seq<char>)
    ensures
        uppercase_spec(x.map_values(|c: char| ascii_upper(c))) == uppercase_spec(x),
    decreases x.len(),
{
    if x.len() > 0 {
        let u = x.map_values(|c: char| ascii_upper(c));
        lemma_uppercase_ascii_case(x.drop_last());
        assert(u.drop_last() =~= x.drop_last().map_values(|c: char| ascii_upper(c)));
        assert(u.last() == ascii_upper(x.last()));
        assert(upper_of(ascii_upper(x.last())) == upper_of(x.last()));
    }
}

/// ASCII letter case makes no difference to decoding: two strings that agree
/// once their ASCII letters are upper-cased decode alike, whatever other
/// characters they hold.
pub proof fn base32_decode_ignores_ascii_case(s: Seq<char>, t: Seq<char>)
    requires
        s.map_values(|c: char| ascii_upper(c)) == t.map_values(|c: char| ascii_upper(c)),
    ensures
        base32_decode_spec(s) == base32_decode_spec(t),
{
    lemma_without_spaces_upper(s);
    lemma_without_spaces_upper(t);
    lemma_uppercase_ascii_case(without_spaces(s));
    lemma_uppercase_ascii_case(without_spaces(t));
}

/// A string and its ASCII lower-case form (`str::to_ascii_lowercase`)
/// decode alike.
pub proof fn base32_decode_lowercase(s: Seq<char>)
    ensures
        base32_decode_spec(s.map_values(|c: char| ascii_lower(c))) == base32_decode_spec(s),
{
    let l = s.map_values(|c: char| ascii_lower(c));
    assert(l.map_values(|c: char| ascii_upper(c)) =~= s.map_values(|c: char| ascii_upper(c)));
    base32_decode_ignores_ascii_case(l, s);
}

proof fn lemma_alphabet_symbol(v: u8)
    requires
        v < 32,
    ensures
        symbol_of(v) == "ABCDEFGHIJKLMNOPQRSTUVWXYZ234567"@[v as int],
        "ABCDEFGHIJKLMNOPQRSTUVWXYZ234567"@.len() == 32,
{
    reveal_strlit("ABCDEFGHIJKLMNOPQRSTUVWXYZ234567");
    let a = "ABCDEFGHIJKLMNOPQRSTUVWXYZ234567"@;
    assert(a =~= seq!['A', 'B', 'C', 'D', 'E', 'F', 'G', 'H', 'I', 'J', 'K', 'L', 'M', 'N', 'O', 'P',
        'Q', 'R', 'S', 'T', 'U', 'V', 'W', 'X', 'Y', 'Z', '2', '3', '4', '5', '6', '7']);
    if v == 0 {
        assert(symbol_of(v) == a[0]);
    } else if v == 1 {
        assert(symbol_of(v) == a[1]);
    } else if v == 2 {
        assert(symbol_of(v) == a[2]);
    } else if v == 3 {
        assert(symbol_of(v) == a[3]);
    } else if v == 4 {
        assert(symbol_of(v) == a[4]);
    } else if v == 5 {
        assert(symbol_of(v) == a[5]);
    } else if v == 6 {
        assert(symbol_of(v) == a[6]);
    } else if v == 7 {
        assert(symbol_of(v) == a[7]);
    } else if v == 8 {
        assert(symbol_of(v) == a[8]);
    } else if v == 9 {
        assert(symbol_of(v) == a[9]);
    } else if v == 10 {
        assert(symbol_of(v) == a[10]);
    } else if v == 11 {
        assert(symbol_of(v) == a[11]);
    } else if v == 12 {
        assert(symbol_of(v) == a[12]);
    } else if v == 13 {
        assert(symbol_of(v) == a[13]);
    } else if v == 14 {
        assert(symbol_of(v) == a[14]);
    } else if v == 15 {
        assert(symbol_of(v) == a[15]);
    } else if v == 16 {
        assert(symbol_of(v) == a[16]);
    } else if v == 17 {
        assert(symbol_of(v) == a[17]);
    } else if v == 18 {
        assert(symbol_of(v) == a[18]);
    } else if v == 19 {
        assert(symbol_of(v) == a[19]);
    } else if v == 20 {
        assert(symbol_of(v) == a[20]);
    } else if v == 21 {
        assert(symbol_of(v) == a[21]);
    } else if v == 22 {
        assert(symbol_of(v) == a[22]);
    } else if v == 23 {
        assert(symbol_of(v) == a[23]);
    } else if v == 24 {
        assert(symbol_of(v) == a[24]);
    } else if v == 25 {
        assert(symbol_of(v) == a[25]);
    } else if v == 26 {
        assert(symbol_of(v) == a[26]);
    } else if v == 27 {
        assert(symbol_of(v) == a[27]);
    } else if v == 28 {
        assert(symbol_of(v) == a[28]);
    } else if v == 29 {
        assert(symbol_of(v) == a[29]);
    } else if v == 30 {
        assert(symbol_of(v) == a[30]);
    } else {
        assert(symbol_of(v) == a[31]);
    }
}

/// The alphabet is RFC 4648's: the symbol of `v` is character `v` of
/// `ABCDEFGHIJKLMNOPQRSTUVWXYZ234567`, and decoding a symbol gives back its
/// place in that string; no other character is a symbol.
pub proof fn base32_alphabet(v: u8, c: char)
    requires
        v < 32,
    ensures
        symbol_of(v) == "ABCDEFGHIJKLMNOPQRSTUVWXYZ234567"@[v as int],
        value_of("ABCDEFGHIJKLMNOPQRSTUVWXYZ234567"@[v as int]) == Some(v),
        value_of(c) matches Some(w) ==> w < 32 && "ABCDEFGHIJKLMNOPQRSTUVWXYZ234567"@[w as int] == c,
{
    lemma_alphabet_symbol(v);
    lemma_symbol_value(v);
    if value_of(c) is Some {
        let w = value_of(c)->0;
        assert(w < 32);
        assert(symbol_of(w) == c);
        lemma_alphabet_symbol(w);
    }
}

} // verus!
