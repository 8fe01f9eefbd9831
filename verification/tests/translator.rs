use patam::alertmanager::{Alert, Annotations, Labels, Status};
use patam::console::{indicate_watchdog_missing, new_service_status, translate_all, ServiceStatus};

fn alert(
    name: Option<&str>,
    severity: Option<&str>,
    fingerprint: &str,
    state: &str,
) -> Alert {
    Alert {
        annotations: Annotations {
            description: None,
            summary: None,
            message: None,
        },
        generator_url: String::new(),
        fingerprint: fingerprint.to_string(),
        status: Status {
            state: state.to_string(),
        },
        labels: Labels {
            alertname: name.map(|s| s.to_string()),
            severity: severity.map(|s| s.to_string()),
        },
    }
}

fn annotated(message: Option<&str>, description: Option<&str>, summary: Option<&str>) -> Alert {
    let mut a = alert(Some("A"), None, "fp", "active");
    a.annotations = Annotations {
        description: description.map(|s| s.to_string()),
        summary: summary.map(|s| s.to_string()),
        message: message.map(|s| s.to_string()),
    };
    a
}

#[test]
fn severity_critical() {
    assert_eq!(alert(None, Some("critical"), "f", "active").select_severity(), "CRITICAL");
}

#[test]
fn severity_warning() {
    assert_eq!(alert(None, Some("warning"), "f", "active").select_severity(), "WARNING");
}

#[test]
fn severity_info_and_none_are_pending() {
    assert_eq!(alert(None, Some("info"), "f", "active").select_severity(), "PENDING");
    assert_eq!(alert(None, Some("none"), "f", "active").select_severity(), "PENDING");
}

#[test]
fn severity_other_or_absent_is_unknown() {
    assert_eq!(alert(None, Some("page"), "f", "active").select_severity(), "UNKNOWN");
    assert_eq!(alert(None, Some("Critical"), "f", "active").select_severity(), "UNKNOWN");
    assert_eq!(alert(None, None, "f", "active").select_severity(), "UNKNOWN");
}

#[test]
fn name_prefers_alertname() {
    assert_eq!(alert(Some("NodeDown"), None, "fp1", "active").select_name(), "NodeDown");
}

#[test]
fn name_falls_back_to_fingerprint() {
    assert_eq!(alert(None, None, "fp1", "active").select_name(), "fp1");
}

#[test]
fn message_prefers_message() {
    assert_eq!(annotated(Some("M"), Some("D"), Some("S")).select_message(), "M");
}

#[test]
fn message_falls_back_to_description() {
    assert_eq!(annotated(None, Some("D"), Some("S")).select_message(), "D");
}

#[test]
fn message_falls_back_to_summary() {
    assert_eq!(annotated(None, None, Some("S")).select_message(), "S");
}

#[test]
fn message_fallback_text() {
    assert_eq!(annotated(None, None, None).select_message(), "no description");
}

#[test]
fn acknowledged_iff_suppressed() {
    assert!(alert(None, None, "f", "suppressed").select_acknowledged());
    assert!(!alert(None, None, "f", "active").select_acknowledged());
    assert!(!alert(None, None, "f", "Suppressed").select_acknowledged());
}

#[test]
fn service_row_carries_display_values() {
    let r: ServiceStatus =
        new_service_status("N".to_string(), "CRITICAL".to_string(), "msg".to_string(), true);
    assert_eq!(r.service_description, "N");
    assert_eq!(r.service_display_name, "N");
    assert_eq!(r.status, "CRITICAL");
    assert_eq!(r.status_information, "msg");
    assert!(r.has_been_acknowledged);
    assert_eq!(r.host_name, "unknown");
    assert_eq!(r.state_type, "HARD");
    assert_eq!(r.current_notification_number, 0);
    assert!(!r.is_flapping);
    assert!(r.active_checks_enabled);
}

#[test]
fn translate_appends_sentinel_when_watchdog_absent() {
    let alerts = vec![
        alert(Some("NodeDown"), Some("critical"), "f1", "active"),
        alert(Some("DiskFull"), Some("warning"), "f2", "suppressed"),
    ];
    let rows = translate_all(&alerts);
    assert_eq!(rows.len(), 3);
    let last = &rows[2];
    assert_eq!(last.service_description, "Watchdog missing");
    assert_eq!(last.status, "CRITICAL");
    assert_eq!(last.status_information, "Watchdog alert is missing");
    assert!(!last.has_been_acknowledged);
}

#[test]
fn translate_excludes_watchdog_and_skips_sentinel() {
    let alerts = vec![
        alert(Some("Watchdog"), Some("none"), "f1", "active"),
        alert(Some("NodeDown"), Some("critical"), "f2", "active"),
    ];
    let rows = translate_all(&alerts);
    assert_eq!(rows.len(), 1);
    assert_eq!(rows[0].service_description, "NodeDown");
    assert!(rows.iter().all(|r| r.service_description != "Watchdog missing"));
    assert!(rows.iter().all(|r| r.service_description != "Watchdog"));
}

#[test]
fn translate_keeps_input_order() {
    let alerts = vec![
        alert(Some("B"), None, "f1", "active"),
        alert(Some("A"), None, "f2", "active"),
        alert(Some("Watchdog"), None, "f3", "active"),
        alert(Some("C"), None, "f4", "active"),
    ];
    let rows = translate_all(&alerts);
    let names: Vec<&str> = rows.iter().map(|r| r.service_description.as_str()).collect();
    assert_eq!(names, vec!["B", "A", "C"]);
}

#[test]
fn sentinel_check_scans_original_list() {
    // The Watchdog alert is filtered out of the displayed rows, yet its
    // presence in the original fetch must suppress the sentinel.
    let alerts = vec![alert(Some("Watchdog"), Some("none"), "f1", "active")];
    let rows = translate_all(&alerts);
    assert!(rows.is_empty());
}

#[test]
fn indicate_watchdog_missing_appends_once() {
    let alerts = vec![alert(Some("NodeDown"), None, "f1", "active")];
    let mut rows = Vec::new();
    indicate_watchdog_missing(&alerts, &mut rows);
    assert_eq!(rows.len(), 1);
    assert_eq!(rows[0].service_description, "Watchdog missing");
}

#[test]
fn indicate_watchdog_missing_leaves_rows_alone_when_present() {
    let alerts = vec![alert(Some("Watchdog"), None, "f1", "active")];
    let mut rows = vec![new_service_status(
        "X".to_string(),
        "UNKNOWN".to_string(),
        "m".to_string(),
        false,
    )];
    indicate_watchdog_missing(&alerts, &mut rows);
    assert_eq!(rows.len(), 1);
    assert_eq!(rows[0].service_description, "X");
}

#[test]
fn watchdog_name_via_fingerprint_counts() {
    // The presence check goes through the same name selector, so a
    // fingerprint reading "Watchdog" counts when no alertname is set.
    let alerts = vec![alert(None, None, "Watchdog", "active")];
    let rows = translate_all(&alerts);
    assert!(rows.is_empty());
}
