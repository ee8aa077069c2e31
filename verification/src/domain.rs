//! The data the viewer works on: its configuration and the table model.

pub mod config;
pub mod data;
