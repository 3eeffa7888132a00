//! Turns protocol-buffer descriptors into schema-builder source text.
//!
//! The raw descriptors are resolved into a verified model (packages, messages,
//! enums, fields), kept in name order, and each declared type is rendered as
//! the lines of a schema implementation.

pub use builder::Builder;

pub mod builder;
pub mod descriptor;
pub mod enum_descriptor;
pub mod enumeration;
pub mod error;
pub mod field;
pub mod generator;
pub mod message;
pub mod message_descriptor;
pub mod naming;
pub mod package;
pub mod package_set;
pub mod proto;
pub mod syntax;
pub mod table;
pub mod text;
