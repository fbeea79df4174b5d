//! In-process composition of an agent plane with a branching inference engine: which contexts and
//! branches are active, what each of them holds, how a branch is forked, advanced, selected and
//! rebuilt from a recipe, and which requests are refused.
//!
//! The engine that computes tokens, the digests and the file system stay outside. Where an
//! operation needs one of them, the library says what to ask for and takes the answer as a plain
//! value.

pub mod branch;
pub mod demo;
pub mod ids;
pub mod laws;
pub mod protocol;
pub mod recipe;
pub mod rendering;
pub mod service;
pub mod store;
mod text;

pub use branch::BranchState;
pub use ids::Uuid;
pub use recipe::ContextRecipe;
pub use service::SovereignInferenceService;
pub use store::RecipeStore;
