//! Authentication and session authorization for a multi-tenant gaming platform:
//! credential checks over three account kinds, signed bearer tokens, a session
//! store, per-client rate limits and a path-based permission table.

mod text;
pub mod accounts;
pub mod claims;
pub mod config;
pub mod error;
mod ids;
pub mod password;
pub mod permissions;
pub mod rate_limit;
pub mod request;
pub mod response;
pub mod service;
pub mod session;
pub mod token;
