//! Telemetry ingest shared by the HTTP endpoint and the embedded MQTT broker:
//! which device a topic is for, what a report's payload gives its device,
//! and the log line ingest writes.
use crate::text::{blank, concat, is_blank, owned, split_chars, split_on, str_equal, trim, trimmed, views};
use vstd::prelude::*;

verus! {

/// Name given to a device that reports none.
pub const DEFAULT_DEVICE_NAME: &'static str = "Agent Device";

/// Model given to a device that reports none.
pub const DEFAULT_DEVICE_MODEL: &'static str = "Agent";

/// The log line of an HTTP ingest.
pub const AGENT_LOG_MESSAGE: &'static str = "Telemetry received from device agent";

/// The device a topic `switchboard/{device}/telemetry` is for: exactly three
/// `/`-separated parts, the outer two fixed.
pub open spec fn topic_device(topic: Seq<char>) -> Option<Seq<char>> {
    let parts = split_on(topic, '/');
    if parts.len() == 3 && parts[0] == "switchboard"@ && parts[2] == "telemetry"@ {
        Some(parts[1])
    } else {
        None
    }
}

/// The topic a device publishes its telemetry on.
pub open spec fn telemetry_topic_of(device: Seq<char>) -> Seq<char> {
    "switchboard/"@ + device + "/telemetry"@
}

/// The topic a device publishes its telemetry on.
pub fn telemetry_topic(device: &str) -> (r: String)
    ensures
        r@ == telemetry_topic_of(device@),
{
    let mut r = concat("switchboard/", device);
    r.append("/telemetry");
    r
}

/// The device a telemetry topic is for, if it is one.
pub fn topic_device_id(topic: &str) -> (r: Option<String>)
    ensures
        match r {
            Some(d) => topic_device(topic@) == Some(d@),
            None => topic_device(topic@) is None,
        },
{
    let parts = split_chars(topic, '/');
    if parts.len() == 3 {
        assert(views(parts@)[0] == parts@[0]@);
        assert(views(parts@)[2] == parts@[2]@);
        assert(views(parts@)[1] == parts@[1]@);
        if str_equal(parts[0].as_str(), "switchboard") && str_equal(parts[2].as_str(), "telemetry") {
            return Some(owned(parts[1].as_str()));
        }
    }
    None
}

/// The name and model an MQTT payload gives its device: as given, else the
/// defaults.
pub fn payload_identity(name: Option<&str>, model: Option<&str>) -> (r: (String, String))
    ensures
        r.0@ == match name {
            Some(n) => n@,
            None => DEFAULT_DEVICE_NAME@,
        },
        r.1@ == match model {
            Some(m) => m@,
            None => DEFAULT_DEVICE_MODEL@,
        },
{
    let n = match name {
        Some(n) => owned(n),
        None => owned(DEFAULT_DEVICE_NAME),
    };
    let m = match model {
        Some(m) => owned(m),
        None => owned(DEFAULT_DEVICE_MODEL),
    };
    (n, m)
}

/// What the JSON reading of an MQTT payload gives: the `name` and `model`
/// fields when they are strings, the JSON text of the `metrics` field when it
/// is there, and the JSON text of the whole payload; `None` when the bytes
/// are not JSON.
pub uninterp spec fn json_payload(bytes: Seq<u8>) -> Option<
    (Option<Seq<char>>, Option<Seq<char>>, Option<Seq<char>>, Seq<char>),
>;

/// The fields read off a telemetry payload.
#[derive(Debug)]
pub struct PayloadFields {
    pub name: Option<String>,
    pub model: Option<String>,
    pub metrics: Option<String>,
    pub whole: String,
}

/// The text of an optional string.
pub open spec fn text_of(s: Option<String>) -> Option<Seq<char>> {
    match s {
        Some(t) => Some(t@),
        None => None,
    }
}

/// Calls `serde_json::from_slice::<serde_json::Value>` on the payload and
/// reads `name` and `model` with `as_str`, `metrics` and the whole value with
/// `to_string`. Trusted: what comes back is the named reading.
#[verifier::external_body]
fn read_payload(bytes: &[u8]) -> (r: Option<PayloadFields>)
    ensures
        match r {
            Some(p) => json_payload(bytes@) == Some(
                (text_of(p.name), text_of(p.model), text_of(p.metrics), p.whole@),
            ),
            None => json_payload(bytes@) is None,
        },
{
    let v: serde_json::Value = serde_json::from_slice(bytes).ok()?;
    let name = v.get("name").and_then(|x| x.as_str()).map(|x| x.to_string());
    let model = v.get("model").and_then(|x| x.as_str()).map(|x| x.to_string());
    let metrics = v.get("metrics").map(|m| m.to_string());
    Some(PayloadFields { name, model, metrics, whole: v.to_string() })
}

/// What an MQTT telemetry payload gives its device: the name and model when
/// the payload has them as strings, else the defaults; and as the reported
/// JSON its `metrics` when there, else the whole payload (a raw metrics
/// object). `None` when the payload is not JSON.
pub fn parse_payload(bytes: &[u8]) -> (r: Option<(String, String, String)>)
    ensures
        match json_payload(bytes@) {
            None => r is None,
            Some((name, model, metrics, whole)) => r matches Some((n, m, reported)) && {
                &&& n@ == match name {
                    Some(x) => x,
                    None => DEFAULT_DEVICE_NAME@,
                }
                &&& m@ == match model {
                    Some(x) => x,
                    None => DEFAULT_DEVICE_MODEL@,
                }
                &&& reported@ == match metrics {
                    Some(x) => x,
                    None => whole,
                }
            },
        },
{
    let p = match read_payload(bytes) {
        Some(p) => p,
        None => return None,
    };
    let (n, m) = payload_identity(
        match &p.name {
            Some(x) => Some(x.as_str()),
            None => None,
        },
        match &p.model {
            Some(x) => Some(x.as_str()),
            None => None,
        },
    );
    let reported = match p.metrics {
        Some(x) => x,
        None => p.whole,
    };
    Some((n, m, reported))
}

/// What an HTTP ingest records for its device.
#[derive(Debug)]
pub struct IngestFields {
    pub name: String,
    pub model: String,
    pub reported: String,
}

/// The fields an HTTP report gives its device: trimmed name and model, or the
/// defaults when blank; the reported metrics' JSON text, or `{}` when the
/// report has none.
pub fn http_ingest_fields(name: &str, model: &str, metrics_json: Option<String>) -> (r:
    IngestFields)
    ensures
        r.name@ == if blank(name@) {
            DEFAULT_DEVICE_NAME@
        } else {
            trimmed(name@)
        },
        r.model@ == if blank(model@) {
            DEFAULT_DEVICE_MODEL@
        } else {
            trimmed(model@)
        },
        r.reported@ == match metrics_json {
            Some(m) => m@,
            None => "{}"@,
        },
{
    let n = if is_blank(name) {
        owned(DEFAULT_DEVICE_NAME)
    } else {
        trim(name)
    };
    let m = if is_blank(model) {
        owned(DEFAULT_DEVICE_MODEL)
    } else {
        trim(model)
    };
    let reported = match metrics_json {
        Some(j) => j,
        None => owned("{}"),
    };
    IngestFields { name: n, model: m, reported }
}

/// The log line of an ingest through `source` (such as `MQTT`).
pub fn ingest_log_message(source: &str) -> (r: String)
    ensures
        r@ == "Telemetry received via "@ + source@,
{
    concat("Telemetry received via ", source)
}

/// A device id without `/` published on its telemetry topic is recognised as
/// that device.
pub proof fn telemetry_topic_roundtrip(device: Seq<char>)
    requires
        forall|i: int| 0 <= i < device.len() ==> #[trigger] device[i] != '/',
    ensures
        topic_device(telemetry_topic_of(device)) == Some(device),
{
    reveal_strlit("switchboard/");
    reveal_strlit("/telemetry");
    reveal_strlit("switchboard");
    reveal_strlit("telemetry");
    let t = telemetry_topic_of(device);
    let d = device.len() as int;
    assert(t.len() == 12 + d + 10);
    assert(t[11] == '/');
    assert forall|j: int| 0 <= j < 11 implies t[j] != '/' by {}
    crate::text::lemma_first_index_at(t, '/', 11);
    let t1 = t.skip(12);
    assert(t1 == device + "/telemetry"@);
    assert forall|j: int| 0 <= j < d implies t1[j] != '/' by {
        assert(t1[j] == device[j]);
    }
    assert(t1[d] == '/');
    crate::text::lemma_first_index_at(t1, '/', d);
    let t2 = t1.skip(d + 1);
    assert(t2 == "telemetry"@);
    assert forall|j: int| 0 <= j < t2.len() implies t2[j] != '/' by {}
    crate::text::lemma_first_index_none(t2, '/');
    assert(t.take(11) == "switchboard"@);
    assert(t1.take(d) == device);
    assert(split_on(t2, '/') == seq![t2]);
    assert(split_on(t1, '/') == seq![device] + seq![t2]);
    assert(split_on(t, '/') == seq![t.take(11)] + split_on(t1, '/'));
}

} // verus!
