//! A declarative HTTP testing and request-chaining library.
//!
//! The crate models HTTP interactions as data: chains of templated requests
//! that thread extracted values from one response into the next, and suites
//! of named test cases with typed assertions.  Everything that decides or
//! computes is verified; the network transport itself is an injected
//! collaborator.

pub mod assertions;
pub mod auth;
pub mod batch;
pub mod cache;
pub mod chaining;
pub mod cli;
pub mod clock;
pub mod compression;
pub mod config;
pub mod cookies;
pub mod dsl;
pub mod error;
pub mod history;
pub mod json;
pub mod request;
pub mod response;
pub mod runner;
pub mod security;
pub mod suite;
pub mod text;
pub mod utils;

pub use error::Error;
