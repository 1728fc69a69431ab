//! Verified core of the RootCause Windows inspector: the classification rules,
//! parsers and decision logic behind the diagnostics, independent of the
//! collectors and the user interface that feed and show them.

pub mod text;
pub mod i18n;
pub mod models;
pub mod network;
pub mod order;
pub mod netscan;
pub mod anomaly;
pub mod tracker;
pub mod detection;
pub mod etl;
pub mod resilience;
pub mod baseline;
pub mod config;
pub mod interface;
pub mod cli_args;
pub mod ai;
pub mod docker;
pub mod commands;
pub mod storage;
pub mod inspection;
pub mod remediation;
pub mod reports;
pub mod rules;
pub mod report;
