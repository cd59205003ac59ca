//! Off-chain half of a milestone-based grant escrow: the datum and redeemer
//! encoding, the off-chain grant metadata, and the transactions that create,
//! approve, release and reclaim a grant.

pub mod address;
pub mod blockfrost_client;
pub mod config;
pub mod datum;
pub mod fees;
pub mod grants_meta;
pub mod handlers;
pub mod hexadecimal;
pub mod json;
pub mod ledger;
pub mod plutus;
pub mod text;
pub mod tx;
