//! Core of a personal-data vault backend: password authentication,
//! signed session tokens, a device-trust state machine, an origin-bound
//! passkey ceremony, and authenticated encryption of database backups.

pub mod aead;
pub mod backup;
pub mod ceremony;
pub mod codec;
pub mod config;
pub mod devices;
pub mod errors;
pub mod hashing;
pub mod middleware;
pub mod records;
pub mod session;
pub mod users;
