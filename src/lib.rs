//! Scanning a range of blocks for the coinbase text of their first
//! transaction: the decisions and data handling, with their contracts.
use vstd::prelude::*;

pub mod block;
pub mod coinbase;
pub mod json;
pub mod range;

verus! {

} // verus!
