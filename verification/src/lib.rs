//! Deterministic key-addressing core of a hierarchical-deterministic wallet:
//! mnemonic encoding of entropy with an embedded checksum, seed stretching,
//! and the typed BIP44 derivation-path algebra.

pub mod bip39;
pub mod bip44;
pub mod bits;
pub mod dictionary;
pub mod wallet;
