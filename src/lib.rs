//! Record-serving core of a SQLite-backed application server: cursor sealing,
//! list-query planning, access checks, subscription registries, script-runtime
//! helpers and the client-side token logic, each with a verified contract.

pub mod client;
pub mod cursor;
pub mod js;
pub mod query;
pub mod records;
pub mod sql;
pub mod sqlite;
pub mod subscribe;
pub mod text;
