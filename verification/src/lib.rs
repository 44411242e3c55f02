//! Balances, account datums and access tokens of a transaction ledger.

pub mod access_token;
pub mod account;
pub mod balance_laws;
pub mod datum_inclusion;
pub mod program_inclusions;
pub mod pubkey;
pub mod spl_token;
pub mod transaction_balances;
