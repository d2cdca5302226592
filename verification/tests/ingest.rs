use switchboard::ids::{id_from, new_id};
use switchboard::ingest::{
    http_ingest_fields, ingest_log_message, parse_payload, payload_identity, telemetry_topic,
    topic_device_id, AGENT_LOG_MESSAGE,
};
use switchboard::sim::{next_online, ONLINE_MAX, ONLINE_MIN, ONLINE_START};

#[test]
fn telemetry_topics() {
    assert_eq!(topic_device_id("switchboard/dev_agent_demo/telemetry"), Some("dev_agent_demo".to_string()));
    assert_eq!(topic_device_id("switchboard//telemetry"), Some(String::new()));
    assert_eq!(topic_device_id("switchboard/a/b/telemetry"), None);
    assert_eq!(topic_device_id("switchboard/a/logs"), None);
    assert_eq!(topic_device_id("other/a/telemetry"), None);
    assert_eq!(telemetry_topic("dev_7"), "switchboard/dev_7/telemetry");
    assert_eq!(topic_device_id(&telemetry_topic("dev_7")), Some("dev_7".to_string()));
}

#[test]
fn payload_and_http_identity() {
    let (n, m) = payload_identity(None, Some("FieldKit A1"));
    assert_eq!((n.as_str(), m.as_str()), ("Agent Device", "FieldKit A1"));
    let (n, m) = payload_identity(Some(" raw "), None);
    assert_eq!((n.as_str(), m.as_str()), (" raw ", "Agent"));
    let f = http_ingest_fields("  ", " Probe ", None);
    assert_eq!((f.name.as_str(), f.model.as_str(), f.reported.as_str()), ("Agent Device", "Probe", "{}"));
    let f = http_ingest_fields(" Pump ", "", Some("{\"tempC\":21.5}".into()));
    assert_eq!((f.name.as_str(), f.model.as_str(), f.reported.as_str()), ("Pump", "Agent", "{\"tempC\":21.5}"));
}

#[test]
fn log_lines() {
    assert_eq!(ingest_log_message("MQTT"), "Telemetry received via MQTT");
    assert_eq!(AGENT_LOG_MESSAGE, "Telemetry received from device agent");
}

#[test]
fn record_ids() {
    assert_eq!(id_from("log", "01HZX4ABCDEFGHJKMNPQRSTVWX"), "log_01hzx4abcdefghjkmnpqrstvwx");
    let a = new_id("dev");
    assert!(a.starts_with("dev_"));
    assert_eq!(a.len(), 30);
    assert_eq!(a, a.to_lowercase());
    assert_ne!(a, new_id("dev"));
}

#[test]
fn simulated_online_count() {
    assert_eq!(next_online(ONLINE_START, 2), 130);
    assert_eq!(next_online(ONLINE_MAX, 2), ONLINE_MAX);
    assert_eq!(next_online(ONLINE_MIN, -2), ONLINE_MIN);
    assert_eq!(next_online(500, 0), ONLINE_MAX);
}

#[test]
fn simulated_run_stays_in_range() {
    let mut online = ONLINE_START;
    let steps = [2, 2, 2, 2, 2, 2, -1, 0, -2, -2, -2, -2, -2, -2, -2, -2, -2, 1];
    for round in 0..50 {
        for (k, s) in steps.iter().enumerate() {
            online = next_online(online, if (round + k) % 3 == 0 { -*s } else { *s });
            assert!((ONLINE_MIN..=ONLINE_MAX).contains(&online));
        }
    }
}

#[test]
fn mqtt_payloads() {
    let (n, m, r) = parse_payload(br#"{"name":"Pump","metrics":{"tempC":21.5}}"#).unwrap();
    assert_eq!((n.as_str(), m.as_str(), r.as_str()), ("Pump", "Agent", r#"{"tempC":21.5}"#));
    let (n, m, r) = parse_payload(br#"{"model":"FieldKit A1","tempC":20}"#).unwrap();
    assert_eq!((n.as_str(), m.as_str()), ("Agent Device", "FieldKit A1"));
    assert_eq!(r, r#"{"model":"FieldKit A1","tempC":20}"#);
    let (n, _, r) = parse_payload(br#"{"name":7,"metrics":null}"#).unwrap();
    assert_eq!((n.as_str(), r.as_str()), ("Agent Device", "null"));
    let (_, _, r) = parse_payload(b"[1, 2]").unwrap();
    assert_eq!(r, "[1,2]");
    assert!(parse_payload(b"not json").is_none());
    assert!(parse_payload(&[0xff, 0xfe]).is_none());
}
