use patam::alertmanager::{
    check_status, new, Acknowledge, Error, RemovalPlan, Silence, Status,
};

fn silence(id: &str, state: &str) -> Silence {
    Silence {
        id: id.to_string(),
        status: Status {
            state: state.to_string(),
        },
    }
}

#[test]
fn check_status_accepts_2xx_only() {
    assert!(check_status(200).is_ok());
    assert!(check_status(204).is_ok());
    assert!(check_status(299).is_ok());
    assert_eq!(check_status(199), Err(Error::BadStatus(199)));
    assert_eq!(check_status(300), Err(Error::BadStatus(300)));
    assert_eq!(check_status(404), Err(Error::BadStatus(404)));
    assert_eq!(check_status(500), Err(Error::BadStatus(500)));
}

#[test]
fn new_pairs_credentials() {
    let both = new(
        "http://am".to_string(),
        Some("u".to_string()),
        Some("p".to_string()),
    );
    assert_eq!(both.auth, Some(("u".to_string(), "p".to_string())));
    let user_only = new("http://am".to_string(), Some("u".to_string()), None);
    assert_eq!(user_only.auth, None);
    let pass_only = new("http://am".to_string(), None, Some("p".to_string()));
    assert_eq!(pass_only.auth, None);
    let neither = new("http://am".to_string(), None, None);
    assert_eq!(neither.auth, None);
}

#[test]
fn request_url_joins_endpoint_and_path() {
    let am = new("http://am:9093".to_string(), None, None);
    assert_eq!(am.request_url("/api/v2/alerts"), "http://am:9093/api/v2/alerts");
    assert_eq!(am.request_url("/api/v2/silences"), "http://am:9093/api/v2/silences");
}

#[test]
fn ack_builds_single_exact_matcher() {
    let a = Acknowledge::build("NodeDown".to_string(), "investigating".to_string(), 1700000000);
    assert_eq!(a.matchers.len(), 1);
    assert_eq!(a.matchers[0].name, "alertname");
    assert_eq!(a.matchers[0].value, "NodeDown");
    assert!(!a.matchers[0].is_regex);
    assert_eq!(a.created_by, "anag-bridge");
    assert_eq!(a.comment, "investigating");
}

#[test]
fn ack_window_is_one_day() {
    let a = Acknowledge::build("NodeDown".to_string(), "investigating".to_string(), 1700000000);
    let starts = chrono::DateTime::parse_from_rfc3339(&a.starts_at).unwrap();
    let ends = chrono::DateTime::parse_from_rfc3339(&a.ends_at).unwrap();
    assert_eq!(starts.timestamp(), 1700000000);
    assert_eq!(ends.timestamp() - starts.timestamp(), 24 * 60 * 60);
}

#[test]
fn ack_timestamps_are_utc_rfc3339() {
    let a = Acknowledge::build("A".to_string(), "c".to_string(), 0);
    assert_eq!(a.starts_at, "1970-01-01T00:00:00+00:00");
    assert_eq!(a.ends_at, "1970-01-02T00:00:00+00:00");
}

#[test]
fn build_checked_accepts_in_range_moments() {
    let r = patam::alertmanager::build_checked("NodeDown".to_string(), "c".to_string(), 1700000000);
    let a = r.expect("moment is within the formatter range");
    assert_eq!(a.matchers.len(), 1);
    assert_eq!(a.matchers[0].value, "NodeDown");
    let starts = chrono::DateTime::parse_from_rfc3339(&a.starts_at).unwrap();
    assert_eq!(starts.timestamp(), 1700000000);
}

#[test]
fn build_checked_rejects_out_of_range_moments() {
    assert!(patam::alertmanager::build_checked("A".to_string(), "c".to_string(), -1).is_none());
    assert!(patam::alertmanager::build_checked("A".to_string(), "c".to_string(), i64::MIN).is_none());
    // The last second of year 9999 leaves no room for the one-day window.
    assert!(patam::alertmanager::build_checked("A".to_string(), "c".to_string(), 253402300799).is_none());
    // The last moment that still leaves room is accepted.
    assert!(patam::alertmanager::build_checked("A".to_string(), "c".to_string(), 253402300799 - 86400).is_some());
}

#[test]
fn ack_request_uses_clock() {
    let r = patam::alertmanager::ack_request("NodeDown".to_string(), "c".to_string());
    let a = r.expect("system clock within formatter range");
    assert_eq!(a.matchers.len(), 1);
    assert_eq!(a.matchers[0].value, "NodeDown");
    let starts = chrono::DateTime::parse_from_rfc3339(&a.starts_at).unwrap();
    let ends = chrono::DateTime::parse_from_rfc3339(&a.ends_at).unwrap();
    assert_eq!(ends.timestamp() - starts.timestamp(), 24 * 60 * 60);
}

#[test]
fn silence_filter_query_plain_name() {
    assert_eq!(
        patam::alertmanager::silence_filter_query("NodeDown"),
        "filter=alertname=NodeDown"
    );
}

#[test]
fn silence_filter_query_escapes_name() {
    assert_eq!(
        patam::alertmanager::silence_filter_query("disk #1 full"),
        "filter=alertname=disk%20%231%20full"
    );
}

#[test]
fn silence_delete_path_escapes_id() {
    assert_eq!(
        patam::alertmanager::silence_delete_path("abc-123"),
        "/api/v2/silence/abc-123"
    );
    assert_eq!(
        patam::alertmanager::silence_delete_path("a b"),
        "/api/v2/silence/a%20b"
    );
}

#[test]
fn removal_plan_deletes_only_active() {
    let silences = vec![silence("keep", "expired"), silence("gone", "active")];
    let plan = RemovalPlan::new(&silences);
    assert_eq!(plan.pending.len(), 1);
    assert_eq!(plan.next_target(), Some("/api/v2/silence/gone".to_string()));
}

#[test]
fn removal_plan_keeps_list_order() {
    let silences = vec![
        silence("first", "active"),
        silence("skip", "pending"),
        silence("second", "active"),
    ];
    let plan = RemovalPlan::new(&silences);
    assert_eq!(plan.pending.len(), 2);
    assert_eq!(plan.pending[0], "/api/v2/silence/first");
    assert_eq!(plan.pending[1], "/api/v2/silence/second");
}

#[test]
fn removal_run_discharges_on_success() {
    let silences = vec![silence("one", "active"), silence("two", "expired")];
    let mut plan = RemovalPlan::new(&silences);
    assert_eq!(plan.next_target(), Some("/api/v2/silence/one".to_string()));
    assert_eq!(plan.advance(200), Ok(()));
    assert_eq!(plan.next_target(), None);
}

#[test]
fn removal_run_stops_on_bad_status() {
    let silences = vec![silence("one", "active"), silence("two", "active")];
    let mut plan = RemovalPlan::new(&silences);
    assert_eq!(plan.advance(500), Err(Error::BadStatus(500)));
    // The failed deletion and everything after it stay owed and unissued.
    assert_eq!(plan.pending.len(), 2);
    assert_eq!(plan.next_target(), Some("/api/v2/silence/one".to_string()));
}

#[test]
fn error_variants_are_distinct() {
    assert_ne!(Error::BadStatus(500), Error::BadStatus(502));
    assert_ne!(Error::TransportError, Error::DecodeError);
    assert_ne!(Error::DecodeError, Error::EncodeError);
}
