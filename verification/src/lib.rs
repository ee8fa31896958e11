//! The idempotent-write core of a newsletter service.
//!
//! A write endpoint must execute at most once per client-supplied idempotency
//! token, even when the client retries or two requests race. The crate models
//! the pieces that make that guarantee: token validation, a codec that turns
//! an HTTP response into relational columns and back, the ledger that records
//! claims and completed responses, and the publish workflow that runs under a
//! claim. The surrounding web server, database driver and mailer are ordinary
//! unverified glue around this library.

pub mod admin;
pub mod flash;
pub mod idempotency;
pub mod login;
pub mod login_middleware;
pub mod newsletters;
pub mod persistence;
pub mod publish;
pub mod response;
pub mod seq_lemmas;
pub mod snapshot;
pub mod store;
pub mod subscriptions;
