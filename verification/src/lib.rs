//! A terminal previewer for delimited text: configuration, a bounded table
//! model with display-width computation, and a bordered renderer.
//!
//! Every function in this crate is verified against the contract written on
//! it. The modules under [`bridge`] hold the few calls into code that the
//! proofs do not see; their contracts are stated there and believed.

pub mod app;
pub mod bridge;
pub mod cli;
pub mod domain;
pub mod services;
pub mod text;
