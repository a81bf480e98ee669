//! The user directory service: entity, DTOs, validation, pagination rules,
//! error taxonomy, the repository over the modeled user table, and the
//! controller that orchestrates one request's work.

pub mod controller;
pub mod errors;
pub mod pagination;
pub mod repo;
pub mod traits;
pub mod user;
pub mod validate;
