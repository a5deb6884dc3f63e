//! The rules applied to incoming events: command risk, secret redaction, aggregation.
pub mod aggregator;
pub mod redaction;
pub mod redaction_laws;
pub mod risk;
