//! Core of a host security audit tool: the check/result data model, the
//! line-oriented configuration parsing that concrete checks share, and the
//! aggregation engine that turns a set of check results into a composite
//! score and letter grade.

pub mod checks;
pub mod parse;
pub mod report;
