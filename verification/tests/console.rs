use switchboard::console::api::{
    alert_action_path, apply_profile_path, command_path, device_path, fleet_path, none,
    operator_path, rollback_path, rule_path, unwrap_envelope,
};
use switchboard::console::live::{prepend_capped, push_capped, ws_url, LOG_CAP, SERIES_CAP};

#[test]
fn envelopes() {
    assert_eq!(unwrap_envelope(true, Some(5), None), Ok(5));
    assert_eq!(unwrap_envelope::<i32>(true, None, None), Err("empty response".to_string()));
    assert_eq!(unwrap_envelope::<i32>(false, Some(5), Some("device not found".into())), Err("device not found".to_string()));
    assert_eq!(unwrap_envelope::<i32>(false, None, None), Err("request failed".to_string()));
    assert_eq!(none::<String>(), None);
}

#[test]
fn request_paths() {
    assert_eq!(device_path("dev_1"), "/api/devices/dev_1");
    assert_eq!(alert_action_path("al_1", "ack"), "/api/alerts/al_1/ack");
    assert_eq!(rule_path("rule_1"), "/api/rules/rule_1");
    assert_eq!(rollback_path("ota_1"), "/api/ota/ota_1/rollback");
    assert_eq!(command_path("dev_1"), "/api/devices/dev_1/command");
    assert_eq!(apply_profile_path("cfg_1"), "/api/config-profiles/cfg_1/apply");
    assert_eq!(fleet_path("flt_1"), "/api/fleets/flt_1");
    assert_eq!(operator_path("op_1"), "/api/operators/op_1");
}

#[test]
fn websocket_address() {
    assert_eq!(ws_url("https:", "board.example:7930"), "wss://board.example:7930/api/ws");
    assert_eq!(ws_url("http:", "localhost:7930"), "ws://localhost:7930/api/ws");
}

#[test]
fn capped_histories() {
    assert_eq!((LOG_CAP, SERIES_CAP), (200, 60));
    let mut series: Vec<u32> = Vec::new();
    for i in 0..65 {
        push_capped(&mut series, i, SERIES_CAP);
    }
    assert_eq!(series.len(), 60);
    assert_eq!(series[0], 5);
    assert_eq!(series[59], 64);
    let mut logs: Vec<u32> = Vec::new();
    for i in 0..3 {
        prepend_capped(&mut logs, i, 2);
    }
    assert_eq!(logs, vec![2, 1]);
    let mut logs: Vec<u32> = Vec::new();
    for i in 0..450 {
        prepend_capped(&mut logs, i, LOG_CAP);
        assert!(logs.len() <= LOG_CAP);
        assert_eq!(logs[0], i);
    }
    assert_eq!(logs.len(), 200);
    assert_eq!(logs[199], 250);
}
