//! Survey data over HTTP, split into commands and queries.
//!
//! A request passes, in order, through the bearer-token check (`extractors`,
//! `token`), the input checks (`inputs`), the command or query dispatch
//! (`commands`, `queries`) against the store (`store`), and the reply mapping
//! (`responders`); `handlers` puts these together, one function per route.
pub mod bytes;
pub mod commands;
pub mod extractors;
pub mod handlers;
pub mod hex;
pub mod inputs;
pub mod json;
pub mod queries;
pub mod responders;
pub mod store;
pub mod token;
