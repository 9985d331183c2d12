//! Diagnostics engine of a PHP mess-detector language server: document
//! store, result cache, analyzer invocation, output extraction and
//! rule-aware range resolution.

pub mod analyzer;
pub mod engine;
pub mod extension;
pub mod extract;
pub mod json;
pub mod report;
pub mod rules;
pub mod slots;
pub mod store;
pub mod table;
pub mod text;
