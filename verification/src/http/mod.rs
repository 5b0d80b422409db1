//! What is said over HTTP: the kinds of failure, the translation styles, and
//! the answers the service gives.

pub mod client;
pub mod response;
