//! Chain monitoring logic: recognising transfers to watched wallets in
//! parsed Solana blocks, and the retry decisions around fetching blocks and
//! notifying the charging endpoint.

pub mod json;
pub mod registry;
pub mod transaction;
pub mod block;
pub mod trigger;
pub mod config;
pub mod import;
