//! Verified core of the personal-assistant backend: authentication decisions,
//! schedule windows, text blocks fed to the language model, news ranking and
//! time-tracking reports.

pub mod auth;
pub mod text;
pub mod clickup;
pub mod clickup_tools;
pub mod report;
pub mod duration;
pub mod news;
pub mod order;
pub mod plan;
pub mod memory;
pub mod compose;
pub mod proposal;
pub mod agent;
pub mod numparse;
pub mod time;
pub mod tick;
pub mod recurrence;
pub mod money;
pub mod agenda;
pub mod briefing;
pub mod review;
pub mod alerts;
pub mod monthly;
pub mod recap;
pub mod api;
pub mod connectors;
pub mod feeds;
pub mod digest;
pub mod tools;
pub mod tool_defs;
pub mod handlers;
pub mod listings;
pub mod mail;
pub mod cashflow;
pub mod price_alerts;
pub mod insights;
pub mod transactions;
