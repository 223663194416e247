//! GitHub data: API values, authentication helpers and request planning.

pub mod auth;
pub mod requests;
pub mod types;
