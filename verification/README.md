# otp_service

A two-factor authentication service built on time-based one-time passwords.

- `src/` is the verified library:
  - `base32` encodes and decodes secrets (RFC 4648 alphabet, no padding), with the proof that
    decoding gives back what was encoded;
  - `totp` computes six-digit codes (HMAC-SHA1 over 30-second steps, RFC 6238) and checks a
    submitted code over a window of one step on each side;
  - `uri` builds `otpauth://` key URIs and the link to their QR image;
  - `qr` draws the QR symbol of a text as a PNG, two pixels per module;
  - `secret` draws random secrets;
  - `service` holds the answers of the setup and verification endpoints;
  - `text` wraps the few string operations of std that need a contract.
- `app/` is the HTTP server (axum): routing, JSON, the clock and the calls to the secrets store.
- `tests/` runs the library on known values, among them the test vectors of RFC 4648 and RFC 6238.
