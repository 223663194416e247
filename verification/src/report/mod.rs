//! Weekly report: the data a report shows and how it is computed.

pub mod data;
pub mod metrics;
pub mod html;
pub mod texts;
pub mod markdown;
