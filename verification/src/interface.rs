//! Presentation rules shared by the interfaces: the tabs, the words and
//! colours of a severity, the services a user may stop, text truncation and
//! the table filter, and the tray menu actions.

use crate::models::{ServiceState, ServiceStateView, Severity};
use crate::text::{
    chars_of, concat2, contains, eq_ic, eq_ignore_case, lower, lower_vec, owned, string_from_range, to_lower,
    trim, trim_str, contains_vec,
};
use vstd::prelude::*;

verus! {

/// The tabs of the main window.
#[derive(Debug, Clone, Copy, PartialEq, Eq, Structural, Default)]
pub enum Tab {
    #[default]
    Overview,
    Processes,
    Connections,
    TempFiles,
    Precision,
    Services,
    Autostart,
    History,
    Config,
    Manual,
    About,
}

/// Icon, Spanish label and English label of a tab.
pub open spec fn tab_meta_spec(tab: Tab) -> (Seq<char>, Seq<char>, Seq<char>) {
    match tab {
        Tab::Overview => ("📊"@, "Resumen"@, "Overview"@),
        Tab::Processes => ("⚙"@, "Procesos"@, "Processes"@),
        Tab::Connections => ("🌐"@, "Conexiones"@, "Connections"@),
        Tab::TempFiles => ("🗑"@, "Temporales"@, "Storage"@),
        Tab::Precision => ("🎯"@, "ETW / WPR"@, "ETW / WPR"@),
        Tab::Services => ("🔧"@, "Servicios"@, "Services"@),
        Tab::Autostart => ("🚀"@, "Autostart"@, "Autostart"@),
        Tab::History => ("🕒"@, "Historial"@, "History"@),
        Tab::Config => ("⚙"@, "Configuración"@, "Settings"@),
        Tab::Manual => ("📖"@, "Manual"@, "Manual"@),
        Tab::About => ("ℹ"@, "Acerca"@, "About"@),
    }
}

/// Icon, Spanish label and English label of a tab.
pub fn tab_meta(tab: Tab) -> (r: (&'static str, &'static str, &'static str))
    ensures
        (r.0@, r.1@, r.2@) == tab_meta_spec(tab),
{
    match tab {
        Tab::Overview => ("📊", "Resumen", "Overview"),
        Tab::Processes => ("⚙", "Procesos", "Processes"),
        Tab::Connections => ("🌐", "Conexiones", "Connections"),
        Tab::TempFiles => ("🗑", "Temporales", "Storage"),
        Tab::Precision => ("🎯", "ETW / WPR", "ETW / WPR"),
        Tab::Services => ("🔧", "Servicios", "Services"),
        Tab::Autostart => ("🚀", "Autostart", "Autostart"),
        Tab::History => ("🕒", "Historial", "History"),
        Tab::Config => ("⚙", "Configuración", "Settings"),
        Tab::Manual => ("📖", "Manual", "Manual"),
        Tab::About => ("ℹ", "Acerca", "About"),
    }
}

/// The bullet drawn before a severity; its colour tells the severities apart.
pub fn sev_dot(sev: Severity) -> (r: &'static str)
    ensures
        r@ == "•"@,
{
    "•"
}

/// The Spanish word of a severity in reports.
pub open spec fn sev_word_spec(sev: Severity) -> Seq<char> {
    match sev {
        Severity::Healthy => "Saludable"@,
        Severity::Warning => "Advertencia"@,
        Severity::Critical => "Crítico"@,
    }
}

/// The Spanish word of a severity in reports.
pub fn sev_word(sev: Severity) -> (r: &'static str)
    ensures
        r@ == sev_word_spec(sev),
{
    match sev {
        Severity::Healthy => "Saludable",
        Severity::Warning => "Advertencia",
        Severity::Critical => "Crítico",
    }
}

/// The RGB colour of the tray dot for a health level (0 healthy, 1 warning,
/// anything else critical).
pub fn level_color(level: u8) -> (r: [u8; 3])
    ensures
        r@ == (if level == 0 {
            seq![63u8, 185u8, 80u8]
        } else if level == 1 {
            seq![210u8, 153u8, 34u8]
        } else {
            seq![248u8, 81u8, 73u8]
        }),
{
    let r: [u8; 3] = if level == 0 {
        [63, 185, 80]
    } else if level == 1 {
        [210, 153, 34]
    } else {
        [248, 81, 73]
    };
    assert(r@ =~= (if level == 0 {
        seq![63u8, 185u8, 80u8]
    } else if level == 1 {
        seq![210u8, 153u8, 34u8]
    } else {
        seq![248u8, 81u8, 73u8]
    }));
    r
}

/// Services a user may stop from the interface.
pub open spec fn stoppable_services() -> Seq<Seq<char>> {
    seq!["wuauserv"@, "bits"@, "dosvc"@, "sysmain"@]
}

/// The (lower-cased) name is one of the stoppable services.
pub open spec fn is_stoppable_name(lower_name: Seq<char>) -> bool {
    stoppable_services().contains(lower_name)
}

pub(crate) fn stoppable_name(lower_name: &str) -> (r: bool)
    ensures
        r == is_stoppable_name(lower_name@),
{
    let r = crate::text::str_eq(lower_name, "wuauserv") || crate::text::str_eq(lower_name, "bits")
        || crate::text::str_eq(lower_name, "dosvc") || crate::text::str_eq(lower_name, "sysmain");
    proof {
        let s = stoppable_services();
        if r {
            if lower_name@ == "wuauserv"@ {
                assert(s[0] == lower_name@);
            } else if lower_name@ == "bits"@ {
                assert(s[1] == lower_name@);
            } else if lower_name@ == "dosvc"@ {
                assert(s[2] == lower_name@);
            } else {
                assert(s[3] == lower_name@);
            }
        }
        if s.contains(lower_name@) {
            let i = choose|i: int| 0 <= i < s.len() && s[i] == lower_name@;
            assert(i == 0 || i == 1 || i == 2 || i == 3);
        }
    }
    r
}

/// A service the user may stop from the interface.
pub fn is_stoppable_service(svc: &ServiceState) -> (r: bool)
    ensures
        r == is_stoppable_name(lower(svc.name@)),
{
    let low = to_lower(svc.name.as_str());
    stoppable_name(low.as_str())
}

/// Severity of a service row: a running stoppable service is a warning.
pub open spec fn service_severity_spec(svc: ServiceStateView) -> Severity {
    if is_stoppable_name(lower(svc.name)) && eq_ignore_case(svc.status, "Running"@) {
        Severity::Warning
    } else {
        Severity::Healthy
    }
}

/// Severity of a service row: a running stoppable service is a warning.
pub fn service_severity(svc: &ServiceState) -> (r: Severity)
    ensures
        r == service_severity_spec(svc@),
{
    if is_stoppable_service(svc) && eq_ic(svc.status.as_str(), "Running") {
        Severity::Warning
    } else {
        Severity::Healthy
    }
}

/// The text cut to `max` characters, with `…` when something was cut.
pub open spec fn trunc_spec(s: Seq<char>, max: int) -> Seq<char> {
    if s.len() <= max {
        s
    } else {
        s.subrange(0, max) + "…"@
    }
}

/// Cuts a text to `max` characters, marking the cut with `…`.
pub fn trunc(s: &str, max: usize) -> (r: String)
    ensures
        r@ == trunc_spec(s@, max as int),
{
    let v = chars_of(s);
    if v.len() <= max {
        owned(s)
    } else {
        let head = string_from_range(&v, 0, max);
        concat2(head.as_str(), "…")
    }
}

/// The filter (trimmed, ignoring ASCII case) is empty or occurs in one of the two texts.
pub open spec fn matches_filter_spec(primary: Seq<char>, secondary: Seq<char>, filter: Seq<char>) -> bool {
    let needle = lower(trim(filter));
    needle.len() == 0 || contains(lower(primary), needle) || contains(lower(secondary), needle)
}

/// Whether a row with these two texts passes the table filter.
pub fn matches_filter(primary: &str, secondary: &str, filter: &str) -> (r: bool)
    ensures
        r == matches_filter_spec(primary@, secondary@, filter@),
{
    let t = trim_str(filter);
    let needle = lower_vec(&chars_of(t.as_str()));
    if needle.len() == 0 {
        return true;
    }
    let p = lower_vec(&chars_of(primary));
    let s = lower_vec(&chars_of(secondary));
    contains_vec(&p, &needle) || contains_vec(&s, &needle)
}

/// Action asked from the tray menu.
#[derive(Debug, Clone, Copy, PartialEq, Eq, Structural)]
pub enum TrayAction {
    /// Show and focus the main window.
    Show,
    /// Take a snapshot now.
    Refresh,
    /// Export the last snapshot as JSON.
    Export,
    /// Quit the application.
    Quit,
}

} // verus!
