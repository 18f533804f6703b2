//! A pet battle library: a bestiary of species read from the NRC data bundle,
//! a verified turn-based battle engine, the adapter that turns species into
//! battle pets, and the data behind the bestiary web page.
use vstd::prelude::*;

pub mod adapter;
pub mod battle;
pub mod bestiary;
pub mod demo;
pub mod export;
pub mod order;
pub mod pets;
pub mod text;

verus! {
} // verus!
