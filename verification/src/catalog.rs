//! The product catalog service: entity, DTOs, pagination rules, error
//! taxonomy and the repository over the modeled product table.

pub mod controller;
pub mod errors;
pub mod pagination;
pub mod product;
pub mod repo;
pub mod traits;
