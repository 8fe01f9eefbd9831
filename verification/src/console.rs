//! Console-facing response records of the legacy JSON contract, and the
//! translation of fetched alerts into them.

use crate::alertmanager::Alert;
use vstd::prelude::*;

verus! {

/// The query of a status-page request: which listing style is asked for.
pub struct DetailsRequest {
    pub style: String,
}

/// The body of the console's overview endpoint.
pub struct TacResponse {
    pub cgi_json_version: String,
    pub icinga_status: IcingaStatus,
    pub tac: Tac,
}

/// Overview payload of the legacy schema.
pub struct Tac {
    pub tac_overview: TacOverview,
}

/// Empty overview object of the legacy schema.
pub struct TacOverview {}

/// The body of the console's service-listing endpoint.
pub struct ServicesResponse {
    pub cgi_json_version: String,
    pub icinga_status: IcingaStatus,
    pub status: Status,
}

/// Empty status object of the legacy schema.
pub struct IcingaStatus {}

/// The listed services of a service-listing response.
pub struct Status {
    pub service_status: Vec<ServiceStatus>,
}

/// One service row of the legacy schema.  Four fields carry the displayed
/// alert; the rest is fixed filler the console expects.
pub struct ServiceStatus {
    pub host_name: String,
    pub host_display_name: String,
    pub service_description: String,
    pub service_display_name: String,
    pub status: String,
    pub last_check: String,
    pub duration: String,
    pub attempts: String,
    pub current_notification_number: i32,
    pub state_type: String,
    pub is_flapping: bool,
    pub in_scheduled_downtime: bool,
    pub active_checks_enabled: bool,
    pub passive_checks_enabled: bool,
    pub notifications_enabled: bool,
    pub has_been_acknowledged: bool,
    pub action_url: String,
    pub notes_url: String,
    pub status_information: String,
}

/// Empty host object of the legacy schema.
pub struct HostStatus {}

/// The abstract value a service row displays: name, severity, message, and
/// whether the alert is acknowledged.
pub ghost struct DisplayRecord {
    pub name: Seq<char>,
    pub severity: Seq<char>,
    pub message: Seq<char>,
    pub acknowledged: bool,
}

/// The synthetic critical record appended when the heartbeat alert is
/// absent from a fetch.
pub open spec fn watchdog_missing_record() -> DisplayRecord {
    DisplayRecord {
        name: "Watchdog missing"@,
        severity: "CRITICAL"@,
        message: "Watchdog alert is missing"@,
        acknowledged: false,
    }
}

/// The display record of one alert, through the four selectors.
pub open spec fn display_of(a: Alert) -> DisplayRecord {
    DisplayRecord {
        name: a.spec_name(),
        severity: a.spec_severity(),
        message: a.spec_message(),
        acknowledged: a.spec_acknowledged(),
    }
}

/// What a service row shows for one display record; every other field is
/// the fixed filler of the legacy schema.
pub open spec fn shows(s: ServiceStatus, d: DisplayRecord) -> bool {
    &&& s.host_name@ == "unknown"@
    &&& s.host_display_name@ == ""@
    &&& s.service_description@ == d.name
    &&& s.service_display_name@ == d.name
    &&& s.status@ == d.severity
    &&& s.last_check@ == ""@
    &&& s.duration@ == ""@
    &&& s.attempts@ == ""@
    &&& s.current_notification_number == 0
    &&& s.state_type@ == "HARD"@
    &&& !s.is_flapping
    &&& !s.in_scheduled_downtime
    &&& s.active_checks_enabled
    &&& s.passive_checks_enabled
    &&& s.notifications_enabled
    &&& s.has_been_acknowledged == d.acknowledged
    &&& s.action_url@ == ""@
    &&& s.notes_url@ == ""@
    &&& s.status_information@ == d.message
}

/// Whether some fetched alert is the heartbeat alert.
pub open spec fn has_watchdog(s: Seq<Alert>) -> bool {
    exists|i: int| 0 <= i < s.len() && (#[trigger] s[i].spec_name()) == "Watchdog"@
}

/// The regular display records of a fetch: every alert in input order,
/// except those named `Watchdog`.
pub open spec fn displays_of(s: Seq<Alert>) -> Seq<DisplayRecord>
    decreases s.len(),
{
    if s.len() == 0 {
        Seq::empty()
    } else {
        let rest = displays_of(s.drop_last());
        if s.last().spec_name() == "Watchdog"@ {
            rest
        } else {
            rest.push(display_of(s.last()))
        }
    }
}

/// The whole translation of one fetch: the regular records, and — exactly
/// when no fetched alert is named `Watchdog` — the synthetic heartbeat
/// record appended at the end.  The presence check runs over the original
/// fetch, not the filtered list, since the filter removes the very record
/// checked for.
pub open spec fn translated(s: Seq<Alert>) -> Seq<DisplayRecord> {
    if has_watchdog(s) {
        displays_of(s)
    } else {
        displays_of(s).push(watchdog_missing_record())
    }
}

/// Builds one service row of the legacy schema around the four displayed
/// values.
pub fn new_service_status(
    name: String,
    severity: String,
    details: String,
    acknowledged: bool,
) -> (r: ServiceStatus)
    ensures
        shows(
            r,
            (DisplayRecord {
                name: name@,
                severity: severity@,
                message: details@,
                acknowledged,
            }),
        ),
{
    ServiceStatus {
        host_name: "unknown".to_owned(),
        host_display_name: "".to_owned(),
        service_description: name.clone(),
        service_display_name: name,
        status: severity,
        last_check: "".to_owned(),
        duration: "".to_owned(),
        attempts: "".to_owned(),
        current_notification_number: 0,
        state_type: "HARD".to_owned(),
        is_flapping: false,
        in_scheduled_downtime: false,
        active_checks_enabled: true,
        passive_checks_enabled: true,
        notifications_enabled: true,
        has_been_acknowledged: acknowledged,
        action_url: "".to_owned(),
        notes_url: "".to_owned(),
        status_information: details,
    }
}

/// Appends the synthetic heartbeat record to the listed services exactly
/// when no alert of the original fetch is named `Watchdog`.
pub fn indicate_watchdog_missing(alerts: &Vec<Alert>, services: &mut Vec<ServiceStatus>)
    ensures
        has_watchdog(alerts@) ==> final(services)@ == old(services)@,
        !has_watchdog(alerts@) ==> final(services)@.len() == old(services)@.len() + 1,
        !has_watchdog(alerts@) ==> final(services)@.subrange(0, old(services)@.len() as int)
            == old(services)@,
        !has_watchdog(alerts@) ==> shows(final(services)@.last(), watchdog_missing_record()),
{
    let mut missing: bool = true;
    let mut i: usize = 0;
    proof {
        assert(alerts@.take(0) =~= Seq::<Alert>::empty());
    }
    while i < alerts.len()
        invariant
            i <= alerts@.len(),
            missing == !has_watchdog(alerts@.take(i as int)),
        decreases alerts@.len() - i,
    {
        let name: String = alerts[i].select_name();
        if name == "Watchdog".to_owned() {
            missing = false;
        }
        proof {
            let t0 = alerts@.take(i as int);
            let t1 = alerts@.take(i + 1);
            assert(t1[i as int] == alerts@[i as int]);
            assert(forall|j: int| 0 <= j < t0.len() ==> t1[j] == t0[j]);
            if alerts@[i as int].spec_name() == "Watchdog"@ {
                assert(t1[i as int].spec_name() == "Watchdog"@);
                assert(has_watchdog(t1));
            } else {
                if has_watchdog(t0) {
                    let j = choose|j: int|
                        0 <= j < t0.len() && (#[trigger] t0[j].spec_name()) == "Watchdog"@;
                    assert(t1[j].spec_name() == "Watchdog"@);
                    assert(has_watchdog(t1));
                }
                if has_watchdog(t1) {
                    let j = choose|j: int|
                        0 <= j < t1.len() && (#[trigger] t1[j].spec_name()) == "Watchdog"@;
                    assert(j != i);
                    assert(t0[j].spec_name() == "Watchdog"@);
                    assert(has_watchdog(t0));
                }
            }
        }
        i += 1;
    }
    proof {
        assert(alerts@.take(alerts@.len() as int) =~= alerts@);
    }
    if missing {
        let ghost before = services@;
        services.push(
            new_service_status(
                "Watchdog missing".to_owned(),
                "CRITICAL".to_owned(),
                "Watchdog alert is missing".to_owned(),
                false,
            ),
        );
        proof {
            assert(services@.subrange(0, before.len() as int) =~= before);
        }
    }
}

/// Translates one fetch into the listed service rows: every alert except
/// those named `Watchdog`, in input order, each through the four selectors,
/// with the synthetic heartbeat record appended exactly when the fetch
/// holds no `Watchdog` alert.
pub fn translate_all(alerts: &Vec<Alert>) -> (r: Vec<ServiceStatus>)
    ensures
        r@.len() == translated(alerts@).len(),
        forall|i: int| 0 <= i < r@.len() ==> shows(#[trigger] r@[i], translated(alerts@)[i]),
{
    let mut services: Vec<ServiceStatus> = Vec::new();
    let mut i: usize = 0;
    proof {
        assert(alerts@.take(0) =~= Seq::<Alert>::empty());
    }
    while i < alerts.len()
        invariant
            i <= alerts@.len(),
            services@.len() == displays_of(alerts@.take(i as int)).len(),
            forall|j: int|
                0 <= j < services@.len() ==> shows(
                    #[trigger] services@[j],
                    displays_of(alerts@.take(i as int))[j],
                ),
        decreases alerts@.len() - i,
    {
        let a: &Alert = &alerts[i];
        let name: String = a.select_name();
        proof {
            assert(alerts@.take(i + 1).drop_last() =~= alerts@.take(i as int));
            assert(alerts@.take(i + 1).last() == alerts@[i as int]);
        }
        if !(name == "Watchdog".to_owned()) {
            let severity: String = a.select_severity();
            let msg: String = a.select_message();
            let ack: bool = a.select_acknowledged();
            services.push(new_service_status(name, severity, msg, ack));
        }
        i += 1;
    }
    proof {
        assert(alerts@.take(alerts@.len() as int) =~= alerts@);
    }
    indicate_watchdog_missing(alerts, &mut services);
    proof {
        if !has_watchdog(alerts@) {
            assert(forall|j: int|
                0 <= j < displays_of(alerts@).len() ==> services@.subrange(
                    0,
                    displays_of(alerts@).len() as int,
                )[j] == #[trigger] services@[j]);
            assert(translated(alerts@)[displays_of(alerts@).len() as int]
                == watchdog_missing_record());
            assert(forall|j: int|
                0 <= j < displays_of(alerts@).len() ==> #[trigger] translated(alerts@)[j]
                    == displays_of(alerts@)[j]);
        }
    }
    services
}

/// Law: exactly when no fetched alert is named `Watchdog`, the translation
/// ends in the synthetic heartbeat record; when one is, nothing is
/// appended — and the regular records never hold a `Watchdog` row.
pub proof fn lemma_watchdog_sentinel(alerts: Seq<Alert>)
    ensures
        !has_watchdog(alerts) ==> translated(alerts).len() == displays_of(alerts).len() + 1
            && translated(alerts).last() == watchdog_missing_record(),
        has_watchdog(alerts) ==> translated(alerts) == displays_of(alerts),
        forall|i: int|
            0 <= i < displays_of(alerts).len() ==> (#[trigger] displays_of(alerts)[i]).name
                != "Watchdog"@,
{
    lemma_displays_exclude_watchdog(alerts);
}

/// The regular display records all come from alerts not named `Watchdog`.
proof fn lemma_displays_exclude_watchdog(s: Seq<Alert>)
    ensures
        forall|i: int|
            0 <= i < displays_of(s).len() ==> (#[trigger] displays_of(s)[i]).name != "Watchdog"@,
    decreases s.len(),
{
    if s.len() == 0 {
    } else {
        lemma_displays_exclude_watchdog(s.drop_last());
        let rest = displays_of(s.drop_last());
        if s.last().spec_name() == "Watchdog"@ {
        } else {
            assert(forall|i: int|
                0 <= i < rest.len() ==> #[trigger] displays_of(s)[i] == rest[i]);
            assert(displays_of(s).last().name == s.last().spec_name());
        }
    }
}

} // verus!
