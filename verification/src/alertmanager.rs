//! Client-side state and decision logic for the upstream alert aggregator:
//! the alert records it serves, the pure display selectors, and the
//! acknowledgment (silence) workflow.
//!
//! The network calls themselves live outside the library; every function
//! here computes from plain values: URLs and queries to issue, request
//! bodies to send, status codes to classify, and response records to act on.

use crate::encoding::encoded_chars;
use crate::encoding::percent_encode;
use vstd::prelude::*;
use vstd::string::StringExecFns;

verus! {

/// Typed failure of one upstream operation.
#[derive(Debug, Clone, Copy, PartialEq, Eq, Structural)]
pub enum Error {
    /// The upstream responded outside the 2xx range; carries the status code.
    BadStatus(u16),
    /// Network or connection failure (timeout, refused connection).
    TransportError,
    /// The response body did not match the expected schema.
    DecodeError,
    /// Outgoing request data could not be serialized.
    EncodeError,
}

/// An HTTP status code that counts as success.
pub open spec fn is_success_code(code: u16) -> bool {
    200 <= code < 300
}

/// Classifies an upstream response status: success passes, anything else
/// becomes `Error::BadStatus` carrying the code.
pub fn check_status(code: u16) -> (r: Result<(), Error>)
    ensures
        r is Ok <==> is_success_code(code),
        !is_success_code(code) ==> r == Err::<(), Error>(Error::BadStatus(code)),
{
    if 200 <= code && code < 300 {
        Ok(())
    } else {
        Err(Error::BadStatus(code))
    }
}

/// Handle on one upstream aggregator: its base endpoint and the optional
/// basic-auth credential pair attached to every request.
pub struct Alertmanager {
    pub endpoint: String,
    pub auth: Option<(String, String)>,
}

/// Builds the handle.  The credential pair is kept only when user and
/// password are both present.
pub fn new(endpoint: String, user: Option<String>, pass: Option<String>) -> (r: Alertmanager)
    ensures
        r.endpoint == endpoint,
        match (user, pass) {
            (Some(u), Some(p)) => r.auth == Some((u, p)),
            _ => r.auth is None,
        },
{
    Alertmanager {
        endpoint,
        auth: match (user, pass) {
            (Some(u), Some(p)) => Some((u, p)),
            _ => None,
        },
    }
}

impl Alertmanager {
    /// The full URL of one fixed-path request: the endpoint followed by the
    /// path.
    pub fn request_url(&self, path: &str) -> (r: String)
        ensures
            r@ == self.endpoint@ + path@,
    {
        self.endpoint.clone().concat(path)
    }
}

/// One alert as served by the upstream aggregator.
pub struct Alert {
    pub annotations: Annotations,
    pub generator_url: String,
    pub fingerprint: String,
    pub status: Status,
    pub labels: Labels,
}

/// Free-text annotations of an alert; the selectors read these three keys.
pub struct Annotations {
    pub description: Option<String>,
    pub summary: Option<String>,
    pub message: Option<String>,
}

/// Upstream state of an alert or of a silence.
pub struct Status {
    pub state: String,
}

/// Labels of an alert; the selectors read these two keys.
pub struct Labels {
    pub alertname: Option<String>,
    pub severity: Option<String>,
}

impl Alert {
    /// The displayed name: the `alertname` label when present, else the
    /// fingerprint.
    pub open spec fn spec_name(&self) -> Seq<char> {
        match self.labels.alertname {
            Some(n) => n@,
            None => self.fingerprint@,
        }
    }

    /// The displayed severity, always one of four values: `critical` maps
    /// to `CRITICAL`, `warning` to `WARNING`, `info` and `none` to
    /// `PENDING`, and any other value or an absent label to `UNKNOWN`.
    pub open spec fn spec_severity(&self) -> Seq<char> {
        match self.labels.severity {
            Some(s) => if s@ == "critical"@ {
                "CRITICAL"@
            } else if s@ == "warning"@ {
                "WARNING"@
            } else if s@ == "info"@ || s@ == "none"@ {
                "PENDING"@
            } else {
                "UNKNOWN"@
            },
            None => "UNKNOWN"@,
        }
    }

    /// The displayed message: the first present of the `message`,
    /// `description` and `summary` annotations, else a fixed fallback text.
    pub open spec fn spec_message(&self) -> Seq<char> {
        if self.annotations.message is Some {
            self.annotations.message->Some_0@
        } else if self.annotations.description is Some {
            self.annotations.description->Some_0@
        } else if self.annotations.summary is Some {
            self.annotations.summary->Some_0@
        } else {
            "no description"@
        }
    }

    /// Whether the alert counts as acknowledged: exactly when its upstream
    /// state is `suppressed`.
    pub open spec fn spec_acknowledged(&self) -> bool {
        self.status.state@ == "suppressed"@
    }

    pub fn select_message(&self) -> (r: String)
        ensures
            r@ == self.spec_message(),
    {
        if let Some(m) = &self.annotations.message {
            return m.clone();
        }
        if let Some(d) = &self.annotations.description {
            return d.clone();
        }
        if let Some(s) = &self.annotations.summary {
            return s.clone();
        }
        "no description".to_owned()
    }

    pub fn select_severity(&self) -> (r: String)
        ensures
            r@ == self.spec_severity(),
    {
        if let Some(s) = &self.labels.severity {
            if *s == "critical".to_owned() {
                return "CRITICAL".to_owned();
            }
            if *s == "warning".to_owned() {
                return "WARNING".to_owned();
            }
            if *s == "info".to_owned() || *s == "none".to_owned() {
                return "PENDING".to_owned();
            }
        }
        "UNKNOWN".to_owned()
    }

    pub fn select_name(&self) -> (r: String)
        ensures
            r@ == self.spec_name(),
    {
        if let Some(n) = &self.labels.alertname {
            return n.clone();
        }
        self.fingerprint.clone()
    }

    pub fn select_acknowledged(&self) -> (r: bool)
        ensures
            r == self.spec_acknowledged(),
    {
        self.status.state == "suppressed".to_owned()
    }
}

/// Law: the displayed severity is never free text from upstream — it is one
/// of the four enumerated values, each claimed by exactly the label values
/// the mapping names.
pub proof fn lemma_severity_enumerated(a: Alert)
    ensures
        a.spec_severity() == "CRITICAL"@ || a.spec_severity() == "WARNING"@ || a.spec_severity()
            == "PENDING"@ || a.spec_severity() == "UNKNOWN"@,
        (a.labels.severity matches Some(s) && s@ == "critical"@) ==> a.spec_severity()
            == "CRITICAL"@,
        (a.labels.severity matches Some(s) && s@ == "warning"@) ==> a.spec_severity()
            == "WARNING"@,
        (a.labels.severity matches Some(s) && (s@ == "info"@ || s@ == "none"@))
            ==> a.spec_severity() == "PENDING"@,
        a.labels.severity is None ==> a.spec_severity() == "UNKNOWN"@,
{
    reveal_strlit("critical");
    reveal_strlit("warning");
    reveal_strlit("info");
    reveal_strlit("none");
    assert("critical"@.len() == 8);
    assert("warning"@.len() == 7);
    assert("warning"@ != "critical"@);
}

/// Law: the displayed name is the `alertname` label when present, else the
/// fingerprint, and is non-empty whenever the fingerprint is non-empty.
/// (An alert whose `alertname` label is present but empty is left out: its
/// displayed name is that empty label.)
pub proof fn lemma_name_fallback(a: Alert)
    requires
        a.labels.alertname matches Some(n) ==> n@.len() > 0,
    ensures
        a.spec_name() == match a.labels.alertname {
            Some(n) => n@,
            None => a.fingerprint@,
        },
        a.fingerprint@.len() > 0 ==> a.spec_name().len() > 0,
{
}

/// One exact-match condition of a silence: the label it pins and the value
/// required of it.
pub struct Matcher {
    pub name: String,
    pub value: String,
    pub is_regex: bool,
}

/// A silence-creation request: its matchers, its provenance, and its
/// time window.  Timestamps are RFC 3339 text in UTC.
pub struct Acknowledge {
    pub matchers: Vec<Matcher>,
    pub created_by: String,
    pub comment: String,
    pub ends_at: String,
    pub starts_at: String,
}

/// One matcher pinned to the value of a label, wrapped the way the silence
/// list endpoint expects its filter.
pub struct Filter {
    pub filter: [Matcher; 1],
}

/// One silence as listed by the upstream: its opaque id and its state.
pub struct Silence {
    pub id: String,
    pub status: Status,
}

/// The seconds a fresh silence lasts: one day.
pub const SILENCE_WINDOW_SECS: i64 = 86400;

/// The largest seconds value the timestamp formatter is fed (the last
/// second of year 9999).
pub const MAX_FORMAT_SECS: i64 = 253402300799;

/// The RFC 3339 text, in UTC, of a moment given as seconds since the Unix
/// epoch.  What the text is on given seconds is left to the formatter.
pub uninterp spec fn rfc3339_of(secs: int) -> Seq<char>;

/// Relies on chrono: `DateTime::<Utc>::from_timestamp` turns in-range
/// seconds into a calendar value, and `DateTime::to_rfc3339` writes its
/// text, which depends on the seconds value alone.
#[verifier::external_body]
fn rfc3339_utc(secs: i64) -> (r: String)
    requires
        0 <= secs <= MAX_FORMAT_SECS,
    ensures
        r@ == rfc3339_of(secs as int),
{
    chrono::DateTime::<chrono::Utc>::from_timestamp(secs, 0).unwrap().to_rfc3339()
}

/// Relies on `std::time::SystemTime`: the current moment as seconds since
/// the Unix epoch, of which nothing is promised.  A clock reading before
/// the epoch comes back as a negative sentinel rather than aborting.
#[verifier::external_body]
fn now_unix_seconds() -> i64 {
    match std::time::SystemTime::now().duration_since(std::time::UNIX_EPOCH) {
        Ok(since_epoch) => since_epoch.as_secs() as i64,
        Err(_) => -1,
    }
}

/// What a silence-creation request built for `name`, `comment` at moment
/// `now` holds: one exact matcher on the `alertname` label, the fixed
/// creator, and a one-day window starting at `now`.
pub open spec fn is_ack_request(a: Acknowledge, name: Seq<char>, comment: Seq<char>, now: int) -> bool {
    &&& a.matchers@.len() == 1
    &&& a.matchers@[0].name@ == "alertname"@
    &&& a.matchers@[0].value@ == name
    &&& !a.matchers@[0].is_regex
    &&& a.created_by@ == "anag-bridge"@
    &&& a.comment@ == comment
    &&& a.starts_at@ == rfc3339_of(now)
    &&& a.ends_at@ == rfc3339_of(now + SILENCE_WINDOW_SECS)
}

impl Acknowledge {
    /// Builds the silence request for one alert name at the given moment:
    /// a single exact matcher on `alertname`, and a window from `now` to
    /// `now` plus one day.
    pub fn build(name: String, comment: String, now_secs: i64) -> (r: Acknowledge)
        requires
            0 <= now_secs,
            now_secs + SILENCE_WINDOW_SECS <= MAX_FORMAT_SECS,
        ensures
            is_ack_request(r, name@, comment@, now_secs as int),
    {
        let mut matchers: Vec<Matcher> = Vec::new();
        matchers.push(Matcher { name: "alertname".to_owned(), value: name, is_regex: false });
        let starts_at: String = rfc3339_utc(now_secs);
        let ends_at: String = rfc3339_utc(now_secs + SILENCE_WINDOW_SECS);
        Acknowledge {
            matchers,
            created_by: "anag-bridge".to_owned(),
            comment,
            ends_at,
            starts_at,
        }
    }
}

/// Builds the silence request for one alert name at the given moment, or
/// refuses it: `Some` exactly when the moment lies in the formatter's
/// range, with room for the one-day window.
pub fn build_checked(name: String, comment: String, now: i64) -> (r: Option<Acknowledge>)
    ensures
        r is Some <==> 0 <= now && now + SILENCE_WINDOW_SECS <= MAX_FORMAT_SECS,
        r matches Some(a) ==> is_ack_request(a, name@, comment@, now as int),
{
    if 0 <= now && now <= MAX_FORMAT_SECS - SILENCE_WINDOW_SECS {
        Some(Acknowledge::build(name, comment, now))
    } else {
        None
    }
}

/// Builds the silence request for the current moment, read from the system
/// clock.  `None` only when the clock reads outside the formatter's range.
pub fn ack_request(name: String, comment: String) -> (r: Option<Acknowledge>)
    ensures
        r matches Some(a) ==> exists|now: int|
            0 <= now && #[trigger] is_ack_request(a, name@, comment@, now),
{
    let ghost gname = name@;
    let ghost gcomment = comment@;
    let now: i64 = now_unix_seconds();
    let r: Option<Acknowledge> = build_checked(name, comment, now);
    proof {
        if r is Some {
            assert(is_ack_request(r->Some_0, gname, gcomment, now as int));
            assert(exists|t: int| 0 <= t && #[trigger] is_ack_request(r->Some_0, gname, gcomment, t));
        }
    }
    r
}

/// The query-string text that lists the silences filtered to one alert
/// name, the name percent-encoded.
pub open spec fn filter_query_of(name: Seq<char>) -> Seq<char> {
    "filter=alertname="@ + encoded_chars(name)
}

/// Builds the silence-list query for one alert name.
pub fn silence_filter_query(name: &str) -> (r: String)
    ensures
        r@ == filter_query_of(name@),
{
    let mut r: String = "filter=alertname=".to_owned();
    let e: String = percent_encode(name);
    r.append(e.as_str());
    r
}

/// The request path that deletes one silence, its opaque id
/// percent-encoded.
pub open spec fn delete_path_of(id: Seq<char>) -> Seq<char> {
    "/api/v2/silence/"@ + encoded_chars(id)
}

/// Builds the deletion path for one silence id.
pub fn silence_delete_path(id: &str) -> (r: String)
    ensures
        r@ == delete_path_of(id@),
{
    let mut r: String = "/api/v2/silence/".to_owned();
    let e: String = percent_encode(id);
    r.append(e.as_str());
    r
}

/// Whether a listed silence is still active upstream.
pub open spec fn spec_active(s: Silence) -> bool {
    s.status.state@ == "active"@
}

/// The deletion paths owed for a listed set of silences: one per silence
/// still active, in list order; expired silences are left alone.
pub open spec fn delete_paths_of(ss: Seq<Silence>) -> Seq<Seq<char>>
    decreases ss.len(),
{
    if ss.len() == 0 {
        Seq::empty()
    } else {
        let rest = delete_paths_of(ss.drop_last());
        if spec_active(ss.last()) {
            rest.push(delete_path_of(ss.last().id@))
        } else {
            rest
        }
    }
}

/// The sequential deletion plan of a remove-acknowledge run: the deletion
/// paths still owed, first one next.  A failed deletion stops the run and
/// leaves the rest owed.
pub struct RemovalPlan {
    pub pending: Vec<String>,
}

impl RemovalPlan {
    /// The owed paths as text.
    pub open spec fn paths(&self) -> Seq<Seq<char>> {
        self.pending@.map_values(|p: String| p@)
    }

    /// Plans the run over a listed set of silences: one deletion per active
    /// silence, in list order.
    pub fn new(silences: &Vec<Silence>) -> (r: RemovalPlan)
        ensures
            r.paths() == delete_paths_of(silences@),
    {
        let mut pending: Vec<String> = Vec::new();
        let mut i: usize = 0;
        proof {
            assert(silences@.take(0) =~= Seq::<Silence>::empty());
            assert(pending@.map_values(|p: String| p@) =~= delete_paths_of(silences@.take(0)));
        }
        while i < silences.len()
            invariant
                i <= silences@.len(),
                pending@.map_values(|p: String| p@) == delete_paths_of(silences@.take(i as int)),
            decreases silences@.len() - i,
        {
            let ghost before = pending@.map_values(|p: String| p@);
            let s: &Silence = &silences[i];
            if s.status.state == "active".to_owned() {
                pending.push(silence_delete_path(s.id.as_str()));
            }
            proof {
                let taken = silences@.take(i + 1);
                assert(taken.drop_last() =~= silences@.take(i as int));
                assert(taken.last() == silences@[i as int]);
                if spec_active(silences@[i as int]) {
                    assert(pending@.map_values(|p: String| p@) =~= before.push(
                        delete_path_of(silences@[i as int].id@),
                    ));
                } else {
                    assert(pending@.map_values(|p: String| p@) =~= before);
                }
            }
            i += 1;
        }
        proof {
            assert(silences@.take(silences@.len() as int) =~= silences@);
        }
        RemovalPlan { pending }
    }

    /// The next deletion owed, if any.
    pub fn next_target(&self) -> (r: Option<String>)
        ensures
            self.pending@.len() == 0 ==> r is None,
            self.pending@.len() > 0 ==> (r matches Some(p) && p@ == self.paths()[0]),
    {
        if self.pending.len() == 0 {
            None
        } else {
            Some(self.pending[0].clone())
        }
    }

    /// Takes the upstream's answer to the deletion just issued.  Success
    /// discharges it; any other status stops the run with `BadStatus`,
    /// leaving every remaining deletion owed and unissued.
    pub fn advance(&mut self, code: u16) -> (r: Result<(), Error>)
        requires
            old(self).pending@.len() > 0,
        ensures
            is_success_code(code) ==> r is Ok && final(self).paths() == old(self).paths()
                .drop_first(),
            !is_success_code(code) ==> r == Err::<(), Error>(Error::BadStatus(code)) && *final(self)
                == *old(self),
    {
        if 200 <= code && code < 300 {
            self.pending.remove(0);
            proof {
                assert(self.paths() =~= old(self).paths().drop_first());
            }
            Ok(())
        } else {
            Err(Error::BadStatus(code))
        }
    }
}

} // verus!
