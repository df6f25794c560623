//! Management of collections of git repositories: scheduling of concurrent
//! transfers, aggregation of their progress and caching of credentials.

pub mod args;
pub mod auth;
pub mod board;
pub mod config;
pub mod datadir;
pub mod exec;
pub mod gitutil;
pub mod link;
pub mod location;
pub mod operator;
pub mod paths;
pub mod pattern;
pub mod prompt;
pub mod query;
pub mod repo;
pub mod scheduler;
pub mod task;
pub mod text;
pub mod transfer;
pub mod util;
