//! Provider resolution and multi-provider search aggregation for a
//! repository search tool.

pub mod cli;
pub mod order;
pub mod config;
pub mod models;
pub mod search;
pub mod providers;
