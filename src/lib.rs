//! Spaced-repetition scheduling and an approval workflow for catalog changes.

pub mod error;
pub mod sm2;
pub mod text;
pub mod auth;
pub mod models;
pub mod store;
pub mod services;
pub mod codes;
pub mod paging;
pub mod api;
