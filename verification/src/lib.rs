//! DMARC policy lookup with a cache in front of it.
//!
//! Given a domain, the library finds out which DMARC policy the domain
//! publishes: `none`, `quarantine` or `reject`. The policy is read from the
//! TXT records of `_dmarc.<domain>`, and what was found is kept in a
//! key-value store for 24 hours, so that a second request for the same
//! domain needs no DNS query.
//!
//! The library itself neither asks DNS nor talks to a store. It decides, and
//! its caller acts:
//!
//! - [`dmarc`] parses TXT records into a policy;
//! - [`resolver`] builds the name to query and turns the outcome of a lookup,
//!   failures included, into a policy;
//! - [`cache`] runs one request as a state machine that says what to do next
//!   (read the store, query DNS, write the store) and takes what came of it;
//! - [`session`] states what a whole request does, and how often it asks DNS
//!   and writes to the store;
//! - [`policy`] holds the policy and its textual form;
//! - [`text`] holds the character-level helpers.
//!
//! Every function is verified against its contract.

pub mod cache;
pub mod dmarc;
pub mod policy;
pub mod resolver;
pub mod session;
pub mod text;
