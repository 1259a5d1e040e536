//! Key URIs (`otpauth://`) for authenticator apps, and the link to their QR
//! image.

use vstd::prelude::*;
use vstd::utf8::{decode_utf8, encode_utf8, encode_utf8_decode_utf8, encode_utf8_valid_utf8, valid_utf8};
use crate::text::push_str;

verus! {

/// Bytes that percent-encoding leaves alone: ASCII letters and digits, and
/// `-`, `.`, `_`, `~`.
pub open spec fn is_unreserved(b: u8) -> bool {
    (48 <= b <= 57) || (65 <= b <= 90) || (97 <= b <= 122) || b == 45 || b == 46 || b == 95 || b
        == 126
}

/// An upper-case hexadecimal digit.
pub open spec fn hex_digit(d: int) -> char {
    if d < 10 {
        (48 + d) as char
    } else {
        (55 + d) as char
    }
}

/// Percent-encoding of bytes: an unreserved byte stands for itself, any
/// other byte becomes `%` and two upper-case hex digits.
pub open spec fn percent_encode_bytes(b: Seq<u8>) -> Seq<char>
    decreases b.len(),
{
    if b.len() == 0 {
        seq![]
    } else {
        let first = if is_unreserved(b[0]) {
            seq![b[0] as char]
        } else {
            seq!['%', hex_digit(b[0] as int / 16), hex_digit(b[0] as int % 16)]
        };
        first + percent_encode_bytes(b.drop_first())
    }
}

/// Percent-encoding of the UTF-8 bytes of a string.
pub open spec fn url_encode_spec(s: Seq<char>) -> Seq<char> {
    percent_encode_bytes(encode_utf8(s))
}

/// Calls `urlencoding::encode`, which percent-encodes every UTF-8 byte of
/// its input except ASCII letters, digits, `-`, `_`, `.` and `~`, with
/// upper-case hex digits.
#[verifier::external_body]
pub(crate) fn url_encode(s: &str) -> (res: String)
    ensures
        res@ == url_encode_spec(s@),
{
    urlencoding::encode(s).into_owned()
}

/// The key URI of a TOTP secret (Google Authenticator's Key URI format):
/// label `issuer:account`, the secret, the issuer again, and the fixed
/// parameters SHA1, six digits, 30-second period.
pub open spec fn totp_uri_spec(secret: Seq<char>, account: Seq<char>, issuer: Seq<char>) -> Seq<char> {
    "otpauth://totp/"@ + url_encode_spec(issuer) + ":"@ + url_encode_spec(account) + "?secret="@
        + secret + "&issuer="@ + url_encode_spec(issuer) + "&algorithm=SHA1&digits=6&period=30"@
}

/// The link that serves the QR image of a key URI.
pub open spec fn qr_code_url_spec(uri: Seq<char>) -> Seq<char> {
    "http://localhost:8080/2fa/qr?data="@ + url_encode_spec(uri)
}

/// Builds the key URI for `secret_base32`, `account_name` and `issuer`.
pub fn create_totp_uri(secret_base32: &str, account_name: &str, issuer: &str) -> (res: String)
    ensures
        res@ == totp_uri_spec(secret_base32@, account_name@, issuer@),
{
    let issuer_enc = url_encode(issuer);
    let account_enc = url_encode(account_name);
    let mut uri = String::from_str("otpauth://totp/");
    push_str(&mut uri, issuer_enc.as_str());
    push_str(&mut uri, ":");
    push_str(&mut uri, account_enc.as_str());
    push_str(&mut uri, "?secret=");
    push_str(&mut uri, secret_base32);
    push_str(&mut uri, "&issuer=");
    push_str(&mut uri, issuer_enc.as_str());
    push_str(&mut uri, "&algorithm=SHA1&digits=6&period=30");
    uri
}

/// Builds the link to the QR image of `uri`.
pub fn qr_code_url(uri: &str) -> (res: String)
    ensures
        res@ == qr_code_url_spec(uri@),
{
    let encoded = url_encode(uri);
    let mut url = String::from_str("http://localhost:8080/2fa/qr?data=");
    push_str(&mut url, encoded.as_str());
    url
}

// ---------------------------------------------------------------------------
// Percent-decoding
// ---------------------------------------------------------------------------

/// The value of a hexadecimal digit of either case.
pub open spec fn hex_value(c: char) -> Option<int> {
    if '0' <= c && c <= '9' {
        Some(c as int - 48)
    } else if 'A' <= c && c <= 'F' {
        Some(c as int - 55)
    } else if 'a' <= c && c <= 'f' {
        Some(c as int - 87)
    } else {
        None
    }
}

/// Percent-decoding to bytes: `%` and two hex digits give one byte, any
/// other ASCII character gives its own byte; anything else fails.
pub open spec fn percent_decode_bytes(s: Seq<char>) -> Option<Seq<u8>>
    decreases s.len(),
{
    if s.len() == 0 {
        Some(seq![])
    } else if s[0] == '%' {
        if s.len() >= 3 && hex_value(s[1]) is Some && hex_value(s[2]) is Some {
            match percent_decode_bytes(s.skip(3)) {
                Some(rest) => Some(seq![(hex_value(s[1])->0 * 16 + hex_value(s[2])->0) as u8] + rest),
                None => None,
            }
        } else {
            None
        }
    } else if (s[0] as u32) < 128 {
        match percent_decode_bytes(s.drop_first()) {
            Some(rest) => Some(seq![s[0] as u8] + rest),
            None => None,
        }
    } else {
        None
    }
}

/// Percent-decoding of a string: the decoded bytes read as UTF-8.
pub open spec fn url_decode_spec(s: Seq<char>) -> Option<Seq<char>> {
    match percent_decode_bytes(s) {
        Some(b) => if valid_utf8(b) {
            Some(decode_utf8(b))
        } else {
            None
        },
        None => None,
    }
}

/// The characters that percent-encoding writes: unreserved ones, `%` and
/// upper-case hex digits. None of them is `:`, `?`, `&`, `=` or `/`.
pub open spec fn is_encoded_char(c: char) -> bool {
    ('0' <= c && c <= '9') || ('A' <= c && c <= 'Z') || ('a' <= c && c <= 'z') || c == '-' || c
        == '.' || c == '_' || c == '~' || c == '%'
}

proof fn lemma_percent_roundtrip(b: Seq<u8>)
    ensures
        percent_decode_bytes(percent_encode_bytes(b)) == Some(b),
        forall|k: int| 0 <= k < percent_encode_bytes(b).len() ==> is_encoded_char(
            #[trigger] percent_encode_bytes(b)[k],
        ),
    decreases b.len(),
{
    if b.len() > 0 {
        let e = percent_encode_bytes(b);
        let tail = percent_encode_bytes(b.drop_first());
        lemma_percent_roundtrip(b.drop_first());
        let x = b[0];
        if is_unreserved(x) {
            let c = x as char;
            assert(c as u32 == x);
            assert(e == seq![c] + tail);
            assert(e[0] == c);
            assert(e.drop_first() =~= tail);
            assert(c as u8 == x);
            assert(seq![x] + b.drop_first() =~= b);
        } else {
            let h1 = hex_digit(x as int / 16);
            let h2 = hex_digit(x as int % 16);
            assert(e == seq!['%', h1, h2] + tail);
            assert(e[0] == '%' && e[1] == h1 && e[2] == h2);
            assert(hex_value(h1) == Some(x as int / 16));
            assert(hex_value(h2) == Some(x as int % 16));
            assert(e.skip(3) =~= tail);
            assert(seq![x] + b.drop_first() =~= b);
        }
        assert forall|k: int| 0 <= k < e.len() implies is_encoded_char(#[trigger] e[k]) by {
            let n = e.len() - tail.len();
            if k >= n {
                assert(e[k] == tail[k - n]);
            }
        }
    }
}

/// Percent-decoding gives back what `url_encode` encoded.
pub proof fn url_encode_roundtrip(s: Seq<char>)
    ensures
        url_decode_spec(url_encode_spec(s)) == Some(s),
        forall|k: int| 0 <= k < url_encode_spec(s).len() ==> is_encoded_char(
            #[trigger] url_encode_spec(s)[k],
        ),
{
    lemma_percent_roundtrip(encode_utf8(s));
    encode_utf8_valid_utf8(s);
    encode_utf8_decode_utf8(s);
}

/// The key URI is `otpauth://totp/` + issuer + `:` + account + `?secret=`
/// + secret + `&issuer=` + issuer + the fixed parameters, where issuer and
/// account are percent-encoded: they hold no `:`, `?`, `&` or `=`, so the
/// label has exactly one `:` before the first `?`, and each part
/// percent-decodes back to the issuer and the account.
pub proof fn key_uri_parts(secret: Seq<char>, account: Seq<char>, issuer: Seq<char>)
    ensures
        ({
            let ei = url_encode_spec(issuer);
            let ea = url_encode_spec(account);
            &&& totp_uri_spec(secret, account, issuer) == "otpauth://totp/"@ + ei + ":"@ + ea
                + "?secret="@ + secret + "&issuer="@ + ei + "&algorithm=SHA1&digits=6&period=30"@
            &&& url_decode_spec(ei) == Some(issuer)
            &&& url_decode_spec(ea) == Some(account)
            &&& forall|k: int| 0 <= k < ei.len() ==> is_encoded_char(#[trigger] ei[k])
            &&& forall|k: int| 0 <= k < ea.len() ==> is_encoded_char(#[trigger] ea[k])
            &&& forall|k: int| 0 <= k < ei.len() ==> #[trigger] ei[k] != ':' && ei[k] != '?' && ei[k] != '&'
            &&& forall|k: int| 0 <= k < ea.len() ==> #[trigger] ea[k] != ':' && ea[k] != '?' && ea[k] != '&'
        }),
{
    url_encode_roundtrip(issuer);
    url_encode_roundtrip(account);
}

/// The QR link is its fixed prefix followed by the percent-encoded key URI,
/// and percent-decoding that part gives the key URI back.
pub proof fn qr_link_decodes(uri: Seq<char>)
    ensures
        qr_code_url_spec(uri).take("http://localhost:8080/2fa/qr?data="@.len() as int)
            == "http://localhost:8080/2fa/qr?data="@,
        url_decode_spec(qr_code_url_spec(uri).skip("http://localhost:8080/2fa/qr?data="@.len() as int))
            == Some(uri),
{
    let p = "http://localhost:8080/2fa/qr?data="@;
    url_encode_roundtrip(uri);
    assert((p + url_encode_spec(uri)).take(p.len() as int) =~= p);
    assert((p + url_encode_spec(uri)).skip(p.len() as int) =~= url_encode_spec(uri));
}

} // verus!
