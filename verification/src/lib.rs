//! A small library behind a single-shot file-upload tool: it models the
//! configuration file, the upload outcome classification, the JSON response
//! parsing, and the post-upload cleanup decision, and proves each step
//! against its stated contract.

pub mod cleanup;
pub mod config;
pub mod json;
pub mod response;
pub mod upload;
pub mod text;
