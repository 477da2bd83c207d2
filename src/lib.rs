//! Parsing, rendering and execution decisions for the CANCEL transaction
//! statement: a case-insensitive, boundary-respecting grammar with an
//! optional TRANSACTION qualifier, its canonical rendering, and the choice of
//! lifecycle call made against the active transaction.

use vstd::prelude::*;

pub mod execute;
pub mod grammar;
pub mod statement;

verus! {

} // verus!
