use vstd::prelude::*;

pub mod commands;
pub mod engine;
pub mod git;
pub mod store;
pub mod string_util;

verus! {

} // verus!
