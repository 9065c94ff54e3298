//! Parsing of AWS load-balancer access logs: two line dialects (the modern
//! application load balancer and the legacy classic load balancer), each a
//! fixed sequence of space-separated fields. A line is either decoded into a
//! record of byte ranges, one per field, or rejected whole; a separate
//! locator walks a rejected line byte by byte and reports where it first
//! diverges from the grammar. Parsed records are serialized to compact JSON
//! lines, rejected ones rendered as diagnostics, and the per-line decisions
//! of the bulk pipeline — which files to read, when to skip, when to stop —
//! are functions here as well.

pub mod alb;
pub mod bytes;
pub mod classic_lb;
pub mod cli;
pub mod engine;
pub mod fields;
pub mod json;
pub mod lex;
pub mod locate;
pub mod pipeline;
pub mod report;
pub mod scan;
pub mod span;
