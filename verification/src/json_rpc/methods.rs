//! The methods, one module each.

pub mod get_notes_count;
pub mod get_wallet_info;
pub mod help;
pub mod openrpc;
pub mod unlock_wallet;
