use vstd::prelude::*;

pub mod text;
pub mod wizard;
pub mod catalog;
pub mod cli;
pub mod config;
pub mod git;
pub mod initialization;
pub mod interaction;
pub mod interactive;
pub mod launcher;
pub mod operations;
pub mod output;
pub mod paths;
pub mod persistence;
pub mod process;
pub mod recipe;
pub mod shortcuts;
pub mod transport;

verus! {

} // verus!
