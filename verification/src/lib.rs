//! Availability checking of Nix store paths against binary caches.
//!
//! The crate holds the decisions of a cache check and leaves the network, the
//! `nix` command line and the terminal to its caller: every function takes
//! plain values and returns plain values.

pub mod cli;
pub mod command;
pub mod engine;
pub mod extension;
pub mod failure;
pub mod json;
pub mod lines;
pub mod nix;
pub mod probe;
pub mod resolver;
pub mod scheduler;
pub mod store_path;
pub mod summary;
pub mod text;
