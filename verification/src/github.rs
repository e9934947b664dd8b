pub mod runner_registration;
pub mod signature;
pub mod webhook;
