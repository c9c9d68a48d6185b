//! A ledger of marketplace listings and fundraising projects.
//!
//! Listings are kept in a key-unique store; a settlement checks the value a
//! caller attached against the listing's terms, advances its counters and
//! hands back the one transfer the host must schedule to the listing's owner.

pub mod account;
pub mod store;
pub mod marketplace;
pub mod crowdfunding;
