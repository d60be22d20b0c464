//! An invoice ledger.
//!
//! A party issues an invoice against another party for a fixed amount and
//! due date; the designated recipient later settles it with a payment of
//! exactly the invoiced amount, which is forwarded to the issuer as a
//! value-transfer instruction. The ledger hands out unique, consecutive
//! invoice identifiers, keeps an issuer-side index of created invoices,
//! and guarantees that an invoice is paid at most once.
//!
//! The host environment that persists the ledger, validates address text,
//! and routes transfer instructions sits outside this crate; the ledger
//! itself is plain data with fully specified operations.

pub mod api;
pub mod identity;
pub mod laws;
pub mod ledger;
pub mod model;
