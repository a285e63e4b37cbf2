//! Core of an identity backend: enrollment-token lifecycle, credential
//! management (password hash, TOTP secret, recovery codes) and the
//! supporting store accessors, with machine-checked contracts.
//!
//! Timestamps are plain `i64` seconds since the Unix epoch, always UTC;
//! callers supply the current time so that every check is against a single
//! consistent instant.

pub mod enrollment;
pub mod keys;
pub mod mail;
pub mod password;
pub mod provider;
pub mod random;
pub mod settings;
pub mod ssh_keys;
pub mod store;
pub mod text;
pub mod totp;
pub mod user;
pub mod yubikey;
