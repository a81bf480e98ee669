//! Verified core of a pair of CRUD services: a product catalog and a user
//! directory. The library holds the repository semantics (create, read,
//! update, delete, paginated listing over an in-memory table model), the
//! pagination and sort-column validation rules, the error taxonomy with its
//! HTTP status mapping, and the DTO projections. The surrounding process
//! (HTTP routing, SQL round trips, configuration loading) lives outside the
//! library and hands it plain values.

pub mod catalog;
pub mod clock;
pub mod config;
pub mod dto_traits;
pub mod ids;
pub mod order;
pub mod table;
pub mod text;
pub mod users;
