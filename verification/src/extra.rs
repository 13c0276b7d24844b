//! Extra handler implementations.

pub mod handler;
