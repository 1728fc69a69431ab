//! Operating configuration: collection cadence, alerting, remediation and the
//! optional AI assistant, with their defaults.

use crate::text::owned;
use vstd::prelude::*;

verus! {

/// Seconds between two snapshots by default.
pub fn default_refresh_interval_secs() -> (r: u64)
    ensures
        r == 5,
{
    5
}

/// Snapshots kept in the history by default.
pub fn default_history_limit() -> (r: usize)
    ensures
        r == 1000,
{
    1_000
}

/// Incidents kept by default.
pub fn default_incident_limit() -> (r: usize)
    ensures
        r == 300,
{
    300
}

/// Alerts shown at most by default.
pub fn default_max_alerts() -> (r: usize)
    ensures
        r == 8,
{
    8
}

/// Seconds between two notifications by default.
pub fn default_notification_cooldown_secs() -> (r: u64)
    ensures
        r == 90,
{
    90
}

/// Seconds the AI assistant may take by default.
pub fn default_ai_timeout_secs() -> (r: u64)
    ensures
        r == 25,
{
    25
}

/// Model the AI assistant asks by default.
pub fn default_ai_model() -> (r: String)
    ensures
        r@ == "gpt-4.1-mini"@,
{
    owned("gpt-4.1-mini")
}

/// Environment variable holding the AI key by default.
pub fn default_ai_api_key_env_var() -> (r: String)
    ensures
        r@ == "ROOTCAUSE_AI_API_KEY"@,
{
    owned("ROOTCAUSE_AI_API_KEY")
}

/// `true`, the default of the switches that start on.
pub fn default_true() -> (r: bool)
    ensures
        r,
{
    true
}

/// How often snapshots are taken and how much history is kept.
#[derive(Debug, Clone, Copy, PartialEq, Eq, Structural)]
pub struct CollectionConfig {
    pub refresh_interval_secs: u64,
    pub history_limit: usize,
    pub incident_limit: usize,
}

impl Default for CollectionConfig {
    fn default() -> (r: CollectionConfig)
        ensures
            r == (CollectionConfig { refresh_interval_secs: 5, history_limit: 1000, incident_limit: 300 }),
    {
        CollectionConfig {
            refresh_interval_secs: default_refresh_interval_secs(),
            history_limit: default_history_limit(),
            incident_limit: default_incident_limit(),
        }
    }
}

/// How many alerts are shown and when notifications are sent.
#[derive(Debug, Clone, Copy, PartialEq, Eq, Structural)]
pub struct AlertingConfig {
    pub max_alerts: usize,
    pub notify_on_critical: bool,
    pub notification_cooldown_secs: u64,
}

impl Default for AlertingConfig {
    fn default() -> (r: AlertingConfig)
        ensures
            r == (AlertingConfig { max_alerts: 8, notify_on_critical: true, notification_cooldown_secs: 90 }),
    {
        AlertingConfig {
            max_alerts: default_max_alerts(),
            notify_on_critical: default_true(),
            notification_cooldown_secs: default_notification_cooldown_secs(),
        }
    }
}

/// Which remediation actions are allowed.
#[derive(Debug, Clone, Copy, PartialEq, Eq, Structural)]
pub struct RemediationConfig {
    pub manual_actions_enabled: bool,
    pub automatic_actions_enabled: bool,
}

impl Default for RemediationConfig {
    fn default() -> (r: RemediationConfig)
        ensures
            r == (RemediationConfig { manual_actions_enabled: true, automatic_actions_enabled: false }),
    {
        RemediationConfig { manual_actions_enabled: default_true(), automatic_actions_enabled: false }
    }
}

/// Settings of the optional AI assistant.
#[derive(Debug, Clone)]
pub struct AiConfig {
    pub enabled: bool,
    pub endpoint: String,
    pub model: String,
    pub api_key_env_var: String,
    pub timeout_secs: u64,
}

impl Default for AiConfig {
    fn default() -> (r: AiConfig)
        ensures
            !r.enabled,
            r.endpoint@ == Seq::<char>::empty(),
            r.model@ == "gpt-4.1-mini"@,
            r.api_key_env_var@ == "ROOTCAUSE_AI_API_KEY"@,
            r.timeout_secs == 25,
    {
        AiConfig {
            enabled: false,
            endpoint: String::new(),
            model: default_ai_model(),
            api_key_env_var: default_ai_api_key_env_var(),
            timeout_secs: default_ai_timeout_secs(),
        }
    }
}

} // verus!
