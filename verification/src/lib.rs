//! Stake-weighted vote accumulation and quorum-certificate assembly.
//!
//! A round of consensus collects individually signed votes, each carrying the
//! stake of its signer, and turns them into one aggregated certificate once
//! enough stake has agreed on the same outcome.
//!
//! - [`data`] and [`vote`] hold the votes and the plain values they are made
//!   of, [`token`] the weight of a vote and [`certificate`] the result.
//! - [`accumulator`] is the engine: it tallies the votes by subject and by
//!   category, marks the signers and decides when a certificate is due.
//!   [`scheme`] is what it asks of the signature scheme.
//! - [`vote_map`], [`signer_map`] and [`bitmask`] are the tallies and the
//!   signer bitmask it keeps, over [`assoc`] and [`bytes`].
//! - [`laws`] states what holds of every accumulator, over [`reorder`].

pub mod accumulator;
pub mod assoc;
pub mod bitmask;
pub mod bytes;
pub mod certificate;
pub mod data;
pub mod laws;
pub mod reorder;
pub mod scheme;
pub mod signer_map;
pub mod token;
pub mod vote;
pub mod vote_map;
