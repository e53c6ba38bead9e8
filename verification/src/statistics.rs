//! Local token accounting: normalized usage, pricing and calendar aggregation.
pub mod usage;
pub mod pricing;
pub mod records;
pub mod aggregate;
pub mod laws;
pub mod activity;
pub mod codex_history;
pub mod claude_history;
pub mod checkpoint;
pub mod calendar;
