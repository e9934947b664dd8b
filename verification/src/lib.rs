//! Decides, for a delivery of a GitHub webhook, whether a queued job gets a
//! runner of its own on ECS, and plans everything that is then asked of
//! GitHub and of ECS. The library computes and never sends: the caller does
//! what a step asks for and reports back what came of it.

pub mod ecs;
pub mod github;
pub mod profile;
pub mod response;
pub mod text;

pub use response::{build_response, function_handler};
