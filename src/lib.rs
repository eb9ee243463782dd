//! Normalisation of trace spans for an LLM observability backend: a typed view
//! over a span's open attribute map, conversion of decoded wire spans into the
//! canonical span model, rebuilding of indexed chat content, and the spans of
//! a workflow run.
pub mod json;
pub mod text;
pub mod keys;
pub mod span;
pub mod attributes;
pub mod outside;
pub mod indexed;
pub mod otel;
pub mod hierarchy;
