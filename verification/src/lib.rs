//! Time-based one-time passwords for a two-factor authentication service:
//! base32 secrets, HMAC-SHA1 codes, provisioning URIs and QR images.

pub mod base32;
pub mod qr;
pub mod secret;
pub mod service;
pub mod text;
pub mod totp;
pub mod uri;

use vstd::prelude::*;

verus! {

/// The default side of a generated QR image, in pixels.
pub fn default_size() -> (r: u32)
    ensures
        r == 150,
{
    150
}

} // verus!
