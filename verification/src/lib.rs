//! Core logic of a catalog-management service: the hierarchical category
//! builder, the multipart field demultiplexer, pagination, and the uniform
//! response envelope, each with a verified contract.

pub mod attributes;
pub mod category;
pub mod envelope;
pub mod multipart;
pub mod pagination;
pub mod schema;
pub mod text;
pub mod upload;
