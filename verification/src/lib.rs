//! Delivery metrics for systems engineering projects tracked on GitHub.

pub mod text;
pub mod cli;
pub mod calendar;
pub mod github;
pub mod pattern;
pub mod schema;
pub mod report;
