//! A layered CRUD backend core for three entities — products, cashflow
//! records and transactions — with pagination, filtering, soft deletion
//! and field validation. The storage layer is an in-memory table per
//! entity; every query, mutation and business rule is specified and
//! verified. HTTP transport, configuration loading and token issuance
//! live outside this crate and talk to it through plain values.

pub mod cashflow;
pub mod cashflow_repository;
pub mod cashflow_usecase;
pub mod clock;
pub mod config;
pub mod error;
pub mod jwt;
pub mod laws;
pub mod numeric;
pub mod pagination;
pub mod product;
pub mod product_repository;
pub mod product_usecase;
pub mod text;
pub mod transaction;
pub mod transaction_repository;
pub mod transaction_usecase;
