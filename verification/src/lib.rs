//! Unique, human-friendly identifiers: a 128-bit token paired with a
//! best-effort alliterative "adjective noun" label, obtained by filtering
//! candidate words fetched from an external word-lookup service.

pub mod identifier;
pub mod words;

pub use identifier::Identifier;

use vstd::prelude::*;

verus! {

/// The inclusive lower bound on the character length of an eligible word.
pub const MIN_WORD_LEN: usize = 4;

/// The inclusive upper bound on the character length of an eligible word.
pub const MAX_WORD_LEN: usize = 8;

} // verus!
