//! What the operations of the command line read and show.

pub mod query;
pub mod status;
