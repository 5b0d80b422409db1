//! The Pokemon data service: what it sends, and what is made of it.

pub mod client;
