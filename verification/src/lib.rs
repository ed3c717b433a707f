//! Verified core of a service that scans source trees for `@req(..)`
//! annotations and computes how well requirements are covered.
use vstd::prelude::*;

pub mod clock;
pub mod handlers;
pub mod models;
pub mod paths;
pub mod repository;
pub mod sample_project;
pub mod services;
pub mod text;
pub mod utils;

verus! {
} // verus!
