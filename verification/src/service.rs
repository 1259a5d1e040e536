//! The decisions of the two-factor service: what a setup request yields and
//! how a submitted code is judged. Reading requests, the clock and the
//! secrets store is left to the caller, which hands the results in here.

use vstd::prelude::*;
use crate::base32::{base32_decode, base32_decode_spec, base32_encode_spec, base32_roundtrip};
use crate::secret::generate_base32_secret;
use crate::text::push_str;
use crate::totp::{
    check_code, code_accepted, code_accepted_within_window, totp_code_spec, window_overflows,
    window_would_overflow,
};
use crate::uri::{create_totp_uri, qr_code_url, qr_code_url_spec, totp_uri_spec};

verus! {

// ---------------------------------------------------------------------------
// Messages
// ---------------------------------------------------------------------------

/// The body of most answers: whether the request went through, and a message.
#[derive(Debug)]
pub struct ApiResponse {
    pub status: bool,
    pub message: String,
}

/// A failure answered with an HTTP status code and a body.
#[derive(Debug)]
pub struct ApiError {
    pub status_code: u16,
    pub body: ApiResponse,
}

/// The answer to a setup request.
#[derive(Debug)]
pub struct TotpSetupResponse {
    pub secret: String,
    pub provisioning_uri: String,
    pub qr_code_url: String,
}

/// What the secrets store is asked to keep for a user.
#[derive(Debug)]
pub struct SecretRecord {
    pub user_id: String,
    pub secret: String,
    pub issuer: String,
}

/// Everything a setup request yields: the record to store and the answer.
#[derive(Debug)]
pub struct TotpSetup {
    pub record: SecretRecord,
    pub response: TotpSetupResponse,
}

/// The HTTP status of an internal error.
pub const INTERNAL_SERVER_ERROR: u16 = 500;

/// What the health check answers.
pub fn health_check() -> (res: &'static str)
    ensures
        res@ == "Authentication service is running!"@,
{
    "Authentication service is running!"
}

/// The headers sent with each request to the secrets store: one pair,
/// `Content-Type: application/json`.
pub fn get_headers() -> (res: Vec<(String, String)>)
    ensures
        res@.len() == 1,
        res@[0].0@ == "Content-Type"@,
        res@[0].1@ == "application/json"@,
{
    let mut headers: Vec<(String, String)> = Vec::new();
    headers.push((String::from_str("Content-Type"), String::from_str("application/json")));
    headers
}

/// The store's endpoint for keeping a new secret, under its base URL.
pub fn secret_setup_endpoint(api_server_url: &str) -> (res: String)
    ensures
        res@ == api_server_url@ + "/v1/auth2fa/otp_secrets/setup"@,
{
    let mut s = String::from_str(api_server_url);
    push_str(&mut s, "/v1/auth2fa/otp_secrets/setup");
    s
}

/// The store's endpoint for reading a user's secret, under its base URL.
pub fn secret_lookup_endpoint(api_server_url: &str) -> (res: String)
    ensures
        res@ == api_server_url@ + "/v1/auth2fa/totp_secrets/verify"@,
{
    let mut s = String::from_str(api_server_url);
    push_str(&mut s, "/v1/auth2fa/totp_secrets/verify");
    s
}

// ---------------------------------------------------------------------------
// Setup
// ---------------------------------------------------------------------------

/// The setup answer for a given base32 secret: the secret, its key URI and
/// the link to the URI's QR image; the record pairs the secret with the user
/// and the issuer.
pub fn setup_response(secret_base32: String, user_id: &str, issuer: &str) -> (res: TotpSetup)
    ensures
        res.record.user_id@ == user_id@,
        res.record.secret@ == secret_base32@,
        res.record.issuer@ == issuer@,
        res.response.secret@ == secret_base32@,
        res.response.provisioning_uri@ == totp_uri_spec(secret_base32@, user_id@, issuer@),
        res.response.qr_code_url@ == qr_code_url_spec(totp_uri_spec(secret_base32@, user_id@, issuer@)),
{
    let provisioning_uri = create_totp_uri(secret_base32.as_str(), user_id, issuer);
    let qr = qr_code_url(provisioning_uri.as_str());
    let record = SecretRecord {
        user_id: String::from_str(user_id),
        secret: secret_base32.clone(),
        issuer: String::from_str(issuer),
    };
    TotpSetup {
        record,
        response: TotpSetupResponse { secret: secret_base32, provisioning_uri, qr_code_url: qr },
    }
}

/// A setup for `user_id` and `issuer` with a fresh random secret of 20 bytes.
pub fn setup_totp(user_id: &str, issuer: &str) -> (res: TotpSetup)
    ensures
        exists|b: Seq<u8>| b.len() == 20 && res.response.secret@ == base32_encode_spec(b),
        res.record.user_id@ == user_id@,
        res.record.secret@ == res.response.secret@,
        res.record.issuer@ == issuer@,
        res.response.provisioning_uri@ == totp_uri_spec(res.response.secret@, user_id@, issuer@),
        res.response.qr_code_url@ == qr_code_url_spec(res.response.provisioning_uri@),
{
    let secret_base32 = generate_base32_secret();
    setup_response(secret_base32, user_id, issuer)
}

// ---------------------------------------------------------------------------
// Verification
// ---------------------------------------------------------------------------

/// What the store answered when asked for a user's secret, as plain values:
/// `None` when its `result` field is not a list, otherwise, for each entry of
/// the list, its `SECRET` field when that is a string.
pub type SecretLookup = Option<Vec<Option<String>>>;

/// The view of a lookup.
pub open spec fn lookup_view(lookup: SecretLookup) -> Option<Seq<Option<Seq<char>>>> {
    match lookup {
        None => None,
        Some(v) => Some(v@.map_values(|e: Option<String>|
            match e {
                None => None,
                Some(s) => Some(s@),
            })),
    }
}

/// The stored secret: present only when the list has exactly one entry and
/// that entry's secret is a string.
pub open spec fn stored_secret_spec(lookup: Option<Seq<Option<Seq<char>>>>) -> Option<Seq<char>> {
    match lookup {
        Some(v) => if v.len() == 1 {
            v[0]
        } else {
            None
        },
        None => None,
    }
}

/// The secret that a lookup yields.
pub fn stored_secret(lookup: &SecretLookup) -> (res: Option<String>)
    ensures
        match res {
            None => stored_secret_spec(lookup_view(*lookup)) is None,
            Some(s) => stored_secret_spec(lookup_view(*lookup)) == Some(s@),
        },
{
    match lookup {
        Some(entries) => {
            if entries.len() == 1 {
                match &entries[0] {
                    Some(s) => Some(s.clone()),
                    None => None,
                }
            } else {
                None
            }
        },
        None => None,
    }
}

/// The answer to a submitted code, as `Ok((verified, message))` or, for an
/// internal error, `Err(message)`:
/// - no stored secret: not set up (`false`);
/// - a stored secret that is not base32: an error naming the bad character;
/// - no clock reading: an error;
/// - otherwise the code is checked at `now - 30`, `now` and `now + 30`:
///   accepted is `(true, "Verification successful")`, rejected is
///   `(false, "Invalid TOTP code")`.
pub open spec fn verify_outcome(
    lookup: Option<Seq<Option<Seq<char>>>>,
    code: Seq<char>,
    now: Option<u64>,
) -> Result<(bool, Seq<char>), Seq<char>> {
    match stored_secret_spec(lookup) {
        None => Ok((false, "TOTP NOT SETUP"@)),
        Some(secret) => match base32_decode_spec(secret) {
            Err(e) => Err("Invalid secret format: "@ + e),
            Ok(bytes) => match now {
                None => Err("System time error"@),
                Some(t) => if code_accepted(bytes, code, t) {
                    Ok((true, "Verification successful"@))
                } else {
                    Ok((false, "Invalid TOTP code"@))
                },
            },
        },
    }
}

/// Checking the code would overflow the clock arithmetic: a stored secret
/// decodes, the clock was read, and the window at that reading overflows.
pub open spec fn verify_overflows(
    lookup: Option<Seq<Option<Seq<char>>>>,
    code: Seq<char>,
    now: Option<u64>,
) -> bool {
    match stored_secret_spec(lookup) {
        None => false,
        Some(secret) => match base32_decode_spec(secret) {
            Err(_) => false,
            Ok(bytes) => match now {
                None => false,
                Some(t) => window_overflows(bytes, code, t),
            },
        },
    }
}

/// `res` is the answer that `verify_outcome` describes; errors are answered
/// with HTTP 500 and `false`.
pub open spec fn is_verify_answer(
    lookup: Option<Seq<Option<Seq<char>>>>,
    code: Seq<char>,
    now: Option<u64>,
    res: Result<ApiResponse, ApiError>,
) -> bool {
    match verify_outcome(lookup, code, now) {
        Ok((status, message)) => res matches Ok(r) && r.status == status && r.message@ == message,
        Err(message) => res matches Err(e) && e.status_code == INTERNAL_SERVER_ERROR && !e.body.status
            && e.body.message@ == message,
    }
}

fn internal_error(message: String) -> (res: ApiError)
    ensures
        res.status_code == INTERNAL_SERVER_ERROR,
        res.body.status == false,
        res.body.message@ == message@,
{
    ApiError { status_code: INTERNAL_SERVER_ERROR, body: ApiResponse { status: false, message } }
}

/// Judges a submitted code against the secret the store returned, at the
/// clock reading `now` (`None` when the clock could not be read).
pub fn verify_totp(lookup: &SecretLookup, code: &String, now: Option<u64>) -> (res: Result<
    ApiResponse,
    ApiError,
>)
    requires
        !verify_overflows(lookup_view(*lookup), code@, now),
    ensures
        is_verify_answer(lookup_view(*lookup), code@, now, res),
{
    let secret_base32 = match stored_secret(lookup) {
        Some(s) => s,
        None => {
            return Ok(ApiResponse { status: false, message: String::from_str("TOTP NOT SETUP") });
        },
    };
    let secret_bytes = match base32_decode(secret_base32.as_str()) {
        Ok(b) => b,
        Err(e) => {
            let mut message = String::from_str("Invalid secret format: ");
            push_str(&mut message, e.as_str());
            return Err(internal_error(message));
        },
    };
    let current_time = match now {
        Some(t) => t,
        None => {
            return Err(internal_error(String::from_str("System time error")));
        },
    };
    match check_code(secret_bytes.as_slice(), code, current_time) {
        Err(message) => Err(internal_error(message)),
        Ok(true) => Ok(ApiResponse { status: true, message: String::from_str("Verification successful") }),
        Ok(false) => Ok(ApiResponse { status: false, message: String::from_str("Invalid TOTP code") }),
    }
}

/// `verify_totp` for any input: `None` exactly when checking the code would
/// overflow the clock arithmetic, otherwise the answer.
pub fn verify_totp_checked(lookup: &SecretLookup, code: &String, now: Option<u64>) -> (res: Option<
    Result<ApiResponse, ApiError>,
>)
    ensures
        res is None <==> verify_overflows(lookup_view(*lookup), code@, now),
        res matches Some(r) ==> is_verify_answer(lookup_view(*lookup), code@, now, r),
{
    if let Some(secret_base32) = stored_secret(lookup) {
        if let Ok(secret_bytes) = base32_decode(secret_base32.as_str()) {
            if let Some(t) = now {
                if window_would_overflow(secret_bytes.as_slice(), code, t) {
                    return None;
                }
            }
        }
    }
    Some(verify_totp(lookup, code, now))
}

// ---------------------------------------------------------------------------
// Laws
// ---------------------------------------------------------------------------

/// A code that an authenticator computes from a secret set up here, at any
/// time `t` up to `i64::MAX - 30`, is accepted at `t` when the store holds
/// that secret: verification of the current code succeeds.
pub proof fn current_code_verifies(secret: Seq<u8>, t: u64)
    requires
        t <= i64::MAX - 30,
    ensures
        verify_outcome(
            Some(seq![Some(base32_encode_spec(secret))]),
            totp_code_spec(secret, t),
            Some(t),
        ) == Ok::<(bool, Seq<char>), Seq<char>>((true, "Verification successful"@)),
{
    base32_roundtrip(secret);
    code_accepted_within_window(secret, t, 1);
}

/// A code one step old or one step ahead is accepted too.
pub proof fn neighbouring_codes_verify(secret: Seq<u8>, t: u64, s: u64)
    requires
        t <= i64::MAX - 30,
        s == t - 30 || s == t + 30,
    ensures
        verify_outcome(
            Some(seq![Some(base32_encode_spec(secret))]),
            totp_code_spec(secret, s),
            Some(t),
        ) == Ok::<(bool, Seq<char>), Seq<char>>((true, "Verification successful"@)),
{
    base32_roundtrip(secret);
    if s == t - 30 {
        code_accepted_within_window(secret, t, 0);
    } else {
        code_accepted_within_window(secret, t, 2);
    }
}

/// Without exactly one stored secret, the answer is "not set up", whatever
/// the code and the clock.
pub proof fn missing_secret_is_not_set_up(
    lookup: Option<Seq<Option<Seq<char>>>>,
    code: Seq<char>,
    now: Option<u64>,
)
    requires
        stored_secret_spec(lookup) is None,
    ensures
        verify_outcome(lookup, code, now) == Ok::<(bool, Seq<char>), Seq<char>>((false, "TOTP NOT SETUP"@)),
{
}

/// For a secret set up here, the answer's `verified` flag is exactly whether
/// the code is accepted in the window; a rejected code is never verified.
pub proof fn verified_iff_accepted(secret: Seq<u8>, code: Seq<char>, t: u64)
    ensures
        verify_outcome(Some(seq![Some(base32_encode_spec(secret))]), code, Some(t)) == (if code_accepted(
            secret,
            code,
            t,
        ) {
            Ok::<(bool, Seq<char>), Seq<char>>((true, "Verification successful"@))
        } else {
            Ok::<(bool, Seq<char>), Seq<char>>((false, "Invalid TOTP code"@))
        }),
{
    base32_roundtrip(secret);
}

} // verus!
