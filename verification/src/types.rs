//! Data types for the database's query, view and revision wire shapes.

pub mod find;
pub mod revision;
pub mod view;
