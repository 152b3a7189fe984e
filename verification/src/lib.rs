//! The wallet's keystore and the JSON-RPC methods that report on it and unlock it.
//!
//! [`keystore`] holds the encrypted mnemonics, decrypts them with the operator's
//! passphrase, and keeps what it decrypted for a bounded window of time.
//! [`json_rpc`] says what each method answers. Neither reads a clock, a file or a
//! socket: the caller hands in the time and the rows that it read.

pub mod json_rpc;
pub mod keystore;
pub mod order;
