//! A social-media simulation core: interest profiles, a content
//! recommendation engine, and the per-agent behavioural state machine, on
//! fixed-point arithmetic where `numeric::SCALE` stands for 1.0.
use vstd::prelude::*;

pub mod numeric;
pub mod interest;
pub mod content;
pub mod chance;
pub mod errors;
pub mod engine;
pub mod states;
pub mod config;
pub mod agent;
pub mod roles;
pub mod simulation;

pub use engine::RecommendationEngine;
pub use interest::{InterestProfile, Topic};
pub use content::Post;
pub use simulation::Simulation;

verus! {

} // verus!
