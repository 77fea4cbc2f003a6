//! Request signing and time-windowed history walking for a wallet REST API client.
//!
//! `signer` turns a secret and a canonical query string into the hex HMAC-SHA256
//! signature that authenticated calls carry. `history` splits a long lookback
//! into bounded windows and collects the non-empty pages that the remote service
//! returns for them, newest window first. `wallet` holds a client's settings and
//! the small rules that decide what a call sends.
pub mod history;
pub mod signer;
pub mod wallet;
