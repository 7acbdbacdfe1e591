//! Verified core of a small token exchange on the Internet Computer: the
//! balance book of the exchange, the reference token ledger it trades
//! against, and the subscriber registry of the publisher canister.
//!
//! Identities and token amounts appear here as plain values: a principal
//! is its byte string ([`principal::PrincipalId`]) and an amount is an
//! unbounded natural number held as base 2^32 digits ([`amount::Amount`]),
//! whose arithmetic is carried out by `candid::Nat`.
pub mod amount;
pub mod backend;
pub mod dex;
pub mod ledger;
pub mod principal;
pub mod principal_map;
pub mod publisher;

