//! Schema-driven form engine for the mail server administration console:
//! field definitions, a registry of schemas, per-form value stores with
//! conditional visibility and validation, and the mapping between the
//! encryption-at-rest settings and their form.

pub mod schema;
pub mod form;
pub mod crypto;
pub mod manage;
pub mod listing;
