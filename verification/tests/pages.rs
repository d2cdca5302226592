use switchboard::config::parse_i64;
use switchboard::console::api::{Device, LogEntry, OtaCampaign};
use switchboard::console::pages::{
    alert_actions, apply_problem, availability_pct, can_remove_member, can_write, canary_choice,
    command_pill, credentials, device_matches, fleet_availability, invite_problem, lamp_tone,
    log_matches, manages_team, other_mode, profile_values_problem, fleet_form_ready,
    firmware_form_ready, command_target_picked, other_theme, passcode_problem, profile_problem,
    rollout_request, rollout_row, severity_dot, sorted_names, Credentials, Presence,
};

fn device(name: &str, model: &str, fleet: Option<&str>, tags: &str) -> Device {
    Device {
        id: "dev_1".into(),
        name: name.into(),
        model: model.into(),
        fw_version: "1.0".into(),
        fleet_id: None,
        fleet_name: fleet.map(|f| f.to_string()),
        status: "active".into(),
        tags: tags.into(),
        twin_version: 0,
        last_seen: 0,
    }
}

fn log(level: &str, msg: &str, device: Option<&str>) -> LogEntry {
    LogEntry {
        id: "log_1".into(),
        device_id: None,
        device_name: device.map(|d| d.to_string()),
        ts: 0,
        level: level.into(),
        msg: msg.into(),
    }
}

fn campaign(label: Option<&str>, fleet: Option<&str>, status: &str, updated: i64, total: i64) -> OtaCampaign {
    OtaCampaign {
        id: "ota_1".into(),
        firmware_id: "fw_1".into(),
        firmware_label: label.map(|l| l.to_string()),
        fleet_id: None,
        fleet_name: fleet.map(|f| f.to_string()),
        canary_pct: 100,
        status: status.into(),
        total,
        updated,
        created_at: 0,
    }
}

#[test]
fn roles_and_controls() {
    assert!(can_write("operator"));
    assert!(can_write("owner"));
    assert!(!can_write("viewer"));
    assert!(manages_team("owner") && manages_team("admin"));
    assert!(!manages_team("operator") && !manages_team("viewer"));
    assert!(can_remove_member("admin", "viewer"));
    assert!(!can_remove_member("admin", "owner"));
    assert!(!can_remove_member("operator", "viewer"));
}

#[test]
fn sign_in_form_and_switches() {
    match credentials("operator", "a@b.c".into(), "pw".into(), "code".into()) {
        Credentials::Operator { email, password } => assert_eq!((email.as_str(), password.as_str()), ("a@b.c", "pw")),
        other => panic!("unexpected {other:?}"),
    }
    match credentials("owner", "a@b.c".into(), "pw".into(), "code".into()) {
        Credentials::Owner { passcode } => assert_eq!(passcode, "code"),
        other => panic!("unexpected {other:?}"),
    }
    assert_eq!(other_mode("owner"), "operator");
    assert_eq!(other_mode("operator"), "owner");
    assert_eq!(other_mode(other_mode("operator")), "operator");
    assert_eq!(other_theme("dark"), "light");
    assert_eq!(other_theme(other_theme("light")), "light");
}

#[test]
fn form_checks() {
    let msg = "Name, email, and a 6+ character password are required";
    assert_eq!(invite_problem(" ", "a@b.c", "secret1").as_deref(), Some(msg));
    assert_eq!(invite_problem("Ann", "a@b.c", "12345").as_deref(), Some(msg));
    assert_eq!(invite_problem("Ann", "a@b.c", "123456"), None);
    assert_eq!(passcode_problem("abc").as_deref(), Some("New passcode must be at least 6 characters"));
    assert_eq!(passcode_problem("abcdef"), None);
    assert_eq!(profile_problem("  ").as_deref(), Some("Name is required"));
    assert_eq!(profile_problem("Night"), None);
    assert_eq!(apply_problem("").as_deref(), Some("Pick an apply target first"));
    assert_eq!(apply_problem("dev_1"), None);
}

#[test]
fn device_search() {
    let d = device("Boiler West", "AeroTherm X3", Some("Baku North"), "hvac roof");
    assert!(device_matches("", &d));
    assert!(device_matches("boiler", &d));
    assert!(device_matches("AEROTHERM", &d));
    assert!(device_matches("north hvac", &d));
    assert!(device_matches("x3 baku", &d));
    assert!(!device_matches("pump", &d));
    let lone = device("Pump", "P1", None, "");
    assert!(device_matches("p1  ", &lone));
    assert!(!device_matches("p1   x", &lone));
}

#[test]
fn log_filter() {
    let l = log("warning", "Battery low", Some("Pump 4"));
    assert!(log_matches("", "all", &l));
    assert!(log_matches("pump", "warning", &l));
    assert!(log_matches("LOW PUMP", "all", &l));
    assert!(!log_matches("", "error", &l));
    assert!(!log_matches("boiler", "all", &l));
    let anon = log("info", "Telemetry received via MQTT", None);
    assert!(log_matches("mqtt ", "info", &anon));
}

#[test]
fn availability_chart() {
    let ps = vec![
        Presence { fleet_name: Some("Sumqayit".into()), online: true },
        Presence { fleet_name: None, online: false },
        Presence { fleet_name: Some("Baku".into()), online: true },
        Presence { fleet_name: Some("Sumqayit".into()), online: false },
        Presence { fleet_name: Some("Baku".into()), online: true },
        Presence { fleet_name: Some("Ganja".into()), online: false },
    ];
    let bars = fleet_availability(&ps);
    let got: Vec<(&str, u32, u32)> = bars.iter().map(|b| (b.name.as_str(), b.online, b.total)).collect();
    assert_eq!(got, vec![("Baku", 2, 2), ("Ganja", 0, 1), ("Sumqayit", 1, 2), ("Unassigned", 0, 1)]);
    assert!(fleet_availability(&[]).is_empty());
    // Code-point order, as a BTreeMap of Strings keeps it: capitals first.
    let ps = vec![
        Presence { fleet_name: Some("baku".into()), online: true },
        Presence { fleet_name: Some("Zaqatala".into()), online: true },
        Presence { fleet_name: Some("Ağdam".into()), online: false },
        Presence { fleet_name: Some("Ag".into()), online: false },
    ];
    let names: Vec<String> = fleet_availability(&ps).into_iter().map(|b| b.name).collect();
    let mut sorted = names.clone();
    sorted.sort();
    assert_eq!(names, sorted);
    assert_eq!(names, vec!["Ag", "Ağdam", "Zaqatala", "baku"]);
    assert_eq!(availability_pct(2, 3), 66);
    assert_eq!(availability_pct(3, 3), 100);
    assert_eq!(availability_pct(0, 0), 0);
}

#[test]
fn rollouts() {
    assert_eq!(canary_choice("25"), 25);
    assert_eq!(canary_choice("-5"), -5);
    assert_eq!(canary_choice("all"), 100);
    assert_eq!(canary_choice(""), 100);
    assert_eq!(parse_i64("+42"), Some(42));
    assert_eq!(parse_i64("-9223372036854775808"), Some(i64::MIN));
    assert_eq!(parse_i64("9223372036854775807"), Some(i64::MAX));
    assert_eq!(parse_i64("9223372036854775808"), None);
    assert_eq!(parse_i64("-"), None);
    assert_eq!(parse_i64("1 "), None);
    assert!(rollout_request("".into(), "flt_1".into(), 50).is_none());
    let q = rollout_request("fw_1".into(), "".into(), 50).unwrap();
    assert_eq!((q.firmware_id.as_str(), q.fleet_id.clone(), q.canary_pct), ("fw_1", None, 50));
    let q = rollout_request("fw_1".into(), "flt_1".into(), 10).unwrap();
    assert_eq!(q.fleet_id.as_deref(), Some("flt_1"));

    let row = rollout_row(&campaign(Some("AeroTherm 2.5.0"), None, "running", 3, 8));
    assert_eq!((row.label.as_str(), row.scope.as_str(), row.pill.as_str(), row.percent), ("AeroTherm 2.5.0", "all fleets", "acked", 37));
    let row = rollout_row(&campaign(None, Some("Baku"), "completed", 9, 8));
    assert_eq!((row.label.as_str(), row.scope.as_str(), row.pill.as_str(), row.percent), ("firmware", "Baku", "resolved", 100));
    assert_eq!(rollout_row(&campaign(None, None, "running", 4, 0)).percent, 0);
    assert_eq!(rollout_row(&campaign(None, None, "running", -3, 8)).percent, -37);
}

#[test]
fn status_colours() {
    assert_eq!(command_pill("completed"), "resolved");
    assert_eq!(command_pill("failed"), "open");
    assert_eq!(command_pill("pending"), "acked");
    assert_eq!(severity_dot("critical"), "down");
    assert_eq!(severity_dot("warning"), "warn");
    assert_eq!(severity_dot("info"), "idle");
    let a = alert_actions("operator", "open");
    assert!(a.resolve && a.ack);
    let a = alert_actions("operator", "acked");
    assert!(a.resolve && !a.ack);
    let a = alert_actions("operator", "resolved");
    assert!(!a.resolve && !a.ack);
    let a = alert_actions("viewer", "open");
    assert!(!a.resolve && !a.ack);
    assert_eq!(lamp_tone(false, true, true, "quarantined"), "down");
    assert_eq!(lamp_tone(true, true, false, "active"), "alarm");
    assert_eq!(lamp_tone(true, false, true, "active"), "alarm");
    assert_eq!(lamp_tone(true, false, false, "quarantined"), "warn");
    assert_eq!(lamp_tone(true, false, false, "active"), "up");
}

#[test]
fn metric_listing_order() {
    let names: Vec<String> = ["tempC", "batteryPct", "rssiDbm", "lat", "Zone", "batteryPct"]
        .iter()
        .map(|s| s.to_string())
        .collect();
    let sorted = sorted_names(names.clone());
    let mut expected = names;
    expected.sort();
    assert_eq!(sorted, expected);
    assert_eq!(sorted, vec!["Zone", "batteryPct", "batteryPct", "lat", "rssiDbm", "tempC"]);
    assert!(sorted_names(Vec::new()).is_empty());
}

#[test]
fn profile_values_and_ready_forms() {
    assert_eq!(profile_values_problem("{ \"reportInterval\": 30 }"), None);
    let report = serde_json::from_str::<serde_json::Value>("{ oops").unwrap_err().to_string();
    assert_eq!(profile_values_problem("{ oops"), Some(format!("Invalid JSON: {report}")));
    assert!(profile_values_problem("").unwrap().starts_with("Invalid JSON: "));
    assert!(fleet_form_ready("North"));
    assert!(!fleet_form_ready("  "));
    assert!(firmware_form_ready("FieldKit A1", "1.4.2"));
    assert!(!firmware_form_ready("FieldKit A1", " "));
    assert!(!firmware_form_ready("", "1.0"));
    assert!(command_target_picked("dev_1"));
    assert!(!command_target_picked(""));
}
