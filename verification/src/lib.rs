//! A Pokemon lookup service, without its sockets: the rules by which a
//! description is chosen for the languages a client asks for, by which a
//! translation style is picked, by which upstream answers become error kinds
//! and error kinds become status codes, and by which the configuration is read.
//!
//! Nothing here opens a connection or reads the environment. Callers hand in
//! what they received and carry out what they are told.
//!
//! - [`pokemon_api`] makes Pokemon records of what the data service sends,
//!   and negotiates the language of the description.
//! - [`translator`] asks for translations and reads the answers.
//! - [`handlers`] decides what is answered to a request, and what is counted.
//! - [`http`] holds the error kinds and the answers with their status codes.
//! - [`metrics`] names the counters and the paths requests are counted under.
//! - [`config`] reads and checks the configuration.
//! - [`text`] gives strings their meaning as sequences of characters.
//! - [`bridge`] holds the calls into other crates, none of them proved.

pub mod bridge;
pub mod config;
pub mod constants;
pub mod handlers;
pub mod http;
pub mod metrics;
pub mod pokemon_api;
pub mod text;
pub mod translator;
