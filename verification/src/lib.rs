//! An escrow-style asset swap over a shared ledger.
//!
//! A maker locks a quantity of one asset in a custodial vault and publishes
//! an offer that names the quantity of a second asset wanted in return. Any
//! taker may fulfil the offer in full: the maker is paid, the vault is
//! released to the taker, and both records are closed.
//!
//! - [`address`]: identities, and the derivation of the addresses at which
//!   offers, vaults and holdings stand.
//! - [`ledger`]: the ledger and its bookkeeping.
//! - [`escrow`]: making and taking an offer.
//! - [`laws`]: what holds of the exchange on every ledger: conservation,
//!   pairing of offers and vaults, fulfilment at most once.
//! - [`table`]: sequences of records read as maps and as sums.
//!
//! Two small programs share the derivation of addresses with the exchange:
//!
//! - [`onchain_vault`]: deposits into and withdrawals from a lockable vault.
//! - [`twitter`]: comments and reactions on tweets.

pub mod address;
pub mod escrow;
pub mod laws;
pub mod ledger;
pub mod onchain_vault;
pub mod table;
pub mod twitter;
