//! Verified core of AgentBar: settings and the dashboard, session-log parsing,
//! token accounting, pricing and calendar statistics, the quota and activity
//! responses of both services, credential strategies, caching decisions, the
//! tray summary and the decisions of the statistics panel.
pub mod models;
pub mod commands;
pub mod account_statistics;
pub mod web_usage;
pub mod account_cache;
pub mod panel;
pub mod providers;
pub mod scope;
pub mod json;
pub mod quota;
pub mod codex_config;
pub mod reset_credits;
pub mod strategy;
pub mod auth;
pub mod dashboard;
pub mod account_activity;
pub mod claude_usage;
pub mod text;
pub mod time;
pub mod tray_summary;
pub mod storage;
pub mod statistics;
