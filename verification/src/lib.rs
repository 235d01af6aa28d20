//! Evaluates observed telemetry field names against a naming-convention
//! catalog: an index of exact names, wildcard templates and namespace
//! prefixes is built from convention documents, and each observed name is
//! classified as matching, missing or bad, with diagnostic comments.
pub mod classify;
pub mod convention;
pub mod index;
pub mod laws;
pub mod report;
pub mod strings;
pub mod suggestion;
