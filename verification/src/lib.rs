//! Core logic of a small configuration-profile switcher: the profile store
//! and its operations, the on-disk layout of profiles, and the parsing of
//! what the user types at the prompts.

pub mod config;
pub mod error;
pub mod laws;
pub mod names;
pub mod paths;
pub mod profile;
pub mod text;
