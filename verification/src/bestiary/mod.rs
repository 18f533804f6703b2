//! The bestiary: pet species with their stats, learnsets and evolutions, an
//! in-memory catalog of them, queries over it, and the assembly of a catalog
//! from the rows of the NRC data bundle.
pub mod catalog;
pub mod error;
pub mod model;
pub mod nrc;
pub mod query;

pub use catalog::PetCatalog;
pub use error::{BestiaryError, BestiaryErrorView};
pub use model::{Evolution, Move, MoveEffect, PetSpecies, PetSpeciesView, Stats};
pub use query::PetQueryService;
