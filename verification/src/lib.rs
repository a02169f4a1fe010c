//! Core of a local, single-user encrypted secret vault.
//!
//! Secrets are stored under per-item envelope encryption: a key is derived
//! from a per-item password and a random salt, the secret is padded to a
//! fixed block granularity, and an AEAD cipher both encrypts the padded
//! secret and authenticates the item's plaintext metadata.  A store keeps
//! the encrypted items and enforces uniqueness and schema invariants.

pub mod aad;
pub mod bytes;
pub mod crypto;
pub mod db;
pub mod error;
pub mod ops;
pub mod pad;
