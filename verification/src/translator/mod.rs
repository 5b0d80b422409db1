//! The translation service: what it is asked, and what is made of its answers.

pub mod client;
