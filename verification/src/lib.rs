//! Coding Plan Manager core: routing strategies, usage accounting and storage
//! for aggregating several coding-plan upstreams behind one endpoint.

pub mod clock;
pub mod commands;
pub mod db;
pub mod json;
pub mod proxy;
pub mod sqlite;
pub mod strategy;
pub mod text;
pub mod token;
pub mod usage;
