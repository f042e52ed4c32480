use vstd::prelude::*;

pub mod desktop;
pub mod error;
mod lookup;
pub mod paths;
pub mod purge;
pub mod utils;

verus! {

} // verus!
