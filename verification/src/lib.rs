use vstd::prelude::*;

pub mod batch_order;
pub mod batching;
pub mod clock;
pub mod commands;
pub mod config;
pub mod controller;
pub mod dialog;
pub mod dirs;
pub mod git;
pub mod key_laws;
pub mod keys;
pub mod laws;
pub mod rows;
pub mod state;
pub mod text;
pub mod tree;
pub mod visibility;
pub mod worker;

verus! {

} // verus!
