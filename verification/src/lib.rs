//! Verified core of a token-2022 transfer-hook vault: the byte layout of the
//! whitelist account, the whitelist operations, the transfer-hook check and
//! the instructions the program builds.

pub mod constants;
pub mod error;
pub mod extra_account_meta;
pub mod initialize_whitelist;
pub mod laws;
pub mod layout;
pub mod mint_token;
pub mod ops_whitelist;
pub mod send_token;
pub mod state;
pub mod transfer_hook;
