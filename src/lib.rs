//! A ledger of fractional investments toward named artworks.
//!
//! For each artwork, identified by an opaque byte string, the ledger keeps the
//! running total invested, the most recent investor and an optional funding
//! goal that can be set only once. Every operation is a verified state
//! transition over an explicit store.

pub mod artwork;
pub mod laws;
pub mod ledger;
pub mod principal;

pub use artwork::{ArtworkState, ArtworkView, InvestError, Investment};
pub use ledger::ArtworkInvestmentContract;
pub use principal::Principal;
