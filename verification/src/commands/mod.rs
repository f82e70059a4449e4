//! The operations the desktop front end invokes, on an open database connection.

pub mod aggregators;
pub mod errors;
pub mod messages;
pub mod plans;
