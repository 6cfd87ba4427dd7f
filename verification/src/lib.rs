use vstd::prelude::*;

pub mod cli;
pub mod error;
pub mod summary;
pub mod text;
pub mod tls;

verus! {

} // verus!
