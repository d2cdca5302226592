use switchboard::api::auth::{operator_sign_in, owner_sign_in, sign_in_kind, LoginBody, SignIn};
use switchboard::api::commands::{plan_send, SendBody};
use switchboard::api::delivery::{
    firmware_fingerprint, hundred, plan_campaign, plan_firmware, plan_profile, CampaignBody,
    FirmwareBody,
};
use switchboard::api::devices::{
    claim_code, claim_code_from, default_status, plan_create, plan_update, CreateBody, UpdateBody,
};
use switchboard::api::fleets;
use switchboard::api::operators::{
    self as ops, active, can_manage, check_delete, plan_update as plan_operator_update,
    role_or_default,
};
use switchboard::api::rules::{default_op, default_sev, plan_rule};
use switchboard::api::settings::{plan_passcode_change, webhook_url, PasscodeBody, WebhookBody};
use switchboard::api::{
    affected, check_access, clear_session_cookie, is_write_method, non_empty, required,
    session_token, set_session_cookie,
};
use switchboard::models::{Device, OperatorAuth};
use switchboard::session::{hash_passcode, Claims};

fn claims(role: &str) -> Claims {
    Claims { exp: 0, oid: "op_1".into(), role: role.into(), name: "N".into() }
}

fn device(fleet: Option<&str>) -> Device {
    Device {
        id: "d".into(),
        name: "d".into(),
        model: String::new(),
        fw_version: String::new(),
        fleet_id: fleet.map(|f| f.to_string()),
        fleet_name: None,
        status: "active".into(),
        tags: String::new(),
        twin_version: 0,
        last_seen: 0,
        created_at: 0,
        updated_at: 0,
    }
}

fn is_id(id: &str, prefix: &str) -> bool {
    let rest = match id.strip_prefix(prefix) {
        Some(r) => r,
        None => return false,
    };
    rest.len() == 26 && rest.chars().all(|c| c.is_ascii_digit() || c.is_ascii_lowercase())
}

#[test]
fn session_cookie_text() {
    assert_eq!(
        set_session_cookie("abc.def"),
        "sb_session=abc.def; HttpOnly; Path=/; SameSite=Lax; Max-Age=43200"
    );
    assert_eq!(clear_session_cookie(), "sb_session=; HttpOnly; Path=/; SameSite=Lax; Max-Age=0");
}

#[test]
fn session_token_from_cookie_header() {
    assert_eq!(session_token("theme=dark; sb_session=tok.sig ; x=1"), Some("tok.sig".to_string()));
    assert_eq!(session_token("sb_session=first; sb_session=second"), Some("first".to_string()));
    assert_eq!(session_token("theme=dark"), None);
    assert_eq!(session_token("a=1; sb_session=tok.sig"), Some("tok.sig".to_string()));
    assert_eq!(session_token("xsb_session=tok"), None);
    assert_eq!(session_token(""), None);
    let set = set_session_cookie("a.b");
    assert_eq!(session_token(&set), Some("a.b".to_string()));
    assert_eq!(session_token(&clear_session_cookie()), Some(String::new()));
}

#[test]
fn write_guard() {
    assert!(is_write_method("POST"));
    assert!(is_write_method("DELETE"));
    assert!(!is_write_method("GET"));
    assert!(!is_write_method("HEAD"));
    assert!(!is_write_method("OPTIONS"));
    let e = check_access(None, "GET").unwrap_err();
    assert_eq!((e.status, e.message.as_str()), (401, "authentication required"));
    let v = claims("viewer");
    let e = check_access(Some(&v), "POST").unwrap_err();
    assert_eq!((e.status, e.message.as_str()), (403, "viewers have read-only access"));
    assert!(check_access(Some(&v), "GET").is_ok());
    assert!(check_access(Some(&claims("operator")), "PUT").is_ok());
}

#[test]
fn affected_rows() {
    let e = affected(Ok(0), "device not found").unwrap_err();
    assert_eq!((e.status, e.message.as_str()), (404, "device not found"));
    assert_eq!(affected(Ok(2), "x").ok(), Some(2));
    let e = affected(Err("disk I/O error".into()), "x").unwrap_err();
    assert_eq!((e.status, e.message.as_str()), (500, "disk I/O error"));
}

#[test]
fn required_and_non_empty() {
    assert_eq!(required("  Edge  ", "name is required").ok(), Some("Edge".to_string()));
    let e = required(" \t ", "name is required").unwrap_err();
    assert_eq!((e.status, e.message.as_str()), (400, "name is required"));
    assert_eq!(non_empty(Some(String::new())), None);
    assert_eq!(non_empty(Some("flt_1".into())), Some("flt_1".to_string()));
    assert_eq!(non_empty(None), None);
}

#[test]
fn sign_in_routing() {
    let body = LoginBody { passcode: " pc ".into(), email: " a@b.c ".into(), password: " pw ".into() };
    match sign_in_kind(&body) {
        SignIn::Operator { email, password } => {
            assert_eq!(email, "a@b.c");
            assert_eq!(password, " pw ");
        }
        SignIn::Owner { .. } => panic!("expected operator sign-in"),
    }
    let body = LoginBody { passcode: " pc ".into(), email: "  ".into(), password: String::new() };
    match sign_in_kind(&body) {
        SignIn::Owner { passcode } => assert_eq!(passcode, "pc"),
        SignIn::Operator { .. } => panic!("expected owner sign-in"),
    }
}

#[test]
fn operator_and_owner_sign_in() {
    let hash = hash_passcode("switchboard").unwrap();
    let op = |status: &str| OperatorAuth {
        id: "op_admin".into(),
        name: "Rashad".into(),
        role: "admin".into(),
        password_hash: hash.clone(),
        status: status.into(),
    };
    let e = operator_sign_in(None, "switchboard").unwrap_err();
    assert_eq!((e.status, e.message.as_str()), (401, "invalid email or password"));
    let e = operator_sign_in(Some(op("active")), "wrong").unwrap_err();
    assert_eq!((e.status, e.message.as_str()), (401, "invalid email or password"));
    let e = operator_sign_in(Some(op("suspended")), "switchboard").unwrap_err();
    assert_eq!((e.status, e.message.as_str()), (403, "this operator is suspended"));
    let id = operator_sign_in(Some(op("active")), "switchboard").ok().unwrap();
    assert_eq!((id.oid.as_str(), id.role.as_str(), id.name.as_str()), ("op_admin", "admin", "Rashad"));
    let id = owner_sign_in(Some(hash.clone()), "switchboard").ok().unwrap();
    assert_eq!((id.oid.as_str(), id.role.as_str(), id.name.as_str()), ("owner", "owner", "Owner"));
    let e = owner_sign_in(None, "switchboard").unwrap_err();
    assert_eq!((e.status, e.message.as_str()), (401, "invalid passcode"));
}

#[test]
fn device_provisioning() {
    let body = CreateBody {
        name: "  Gate 4 ".into(),
        model: "FieldKit A1".into(),
        fw_version: "1.0".into(),
        fleet_id: Some(String::new()),
        tags: "north".into(),
    };
    let d = plan_create(body).ok().unwrap();
    assert_eq!(d.name, "Gate 4");
    assert_eq!(d.fleet_id, None);
    assert!(is_id(&d.id, "dev_"));
    assert_eq!(d.claim_code.len(), 9);
    assert!(d.claim_code.starts_with("SW-"));
    let blank = CreateBody {
        name: " ".into(),
        model: String::new(),
        fw_version: String::new(),
        fleet_id: None,
        tags: String::new(),
    };
    let e = plan_create(blank).unwrap_err();
    assert_eq!((e.status, e.message.as_str()), (400, "name is required"));
}

#[test]
fn claim_codes() {
    assert_eq!(claim_code_from(&[0, 1, 2, 29, 30, 31]), "SW-ABC789");
    let c = claim_code();
    assert_eq!(c.len(), 9);
    assert!(c[3..].chars().all(|ch| "ABCDEFGHJKLMNPQRSTUVWXYZ23456789".contains(ch)));
}

#[test]
fn device_update() {
    assert_eq!(default_status(), "active");
    let u = plan_update(UpdateBody {
        name: " Pump ".into(),
        model: "M".into(),
        fleet_id: Some("flt_1".into()),
        status: "quarantined".into(),
        tags: "t".into(),
    });
    assert_eq!(u.name, "Pump");
    assert_eq!(u.fleet_id, Some("flt_1".to_string()));
    assert_eq!(u.status, "quarantined");
}

#[test]
fn firmware_registration() {
    assert_eq!(firmware_fingerprint("FieldKit A1", "1.4.2"), "94bdbcf5680e1aa89d522a1adc40d00b3c9f2096b904def4cdcf509d22c784b2");
    let f = plan_firmware(FirmwareBody { model: " FieldKit A1 ".into(), version: "1.4.2 ".into(), size_kb: 0 })
        .ok()
        .unwrap();
    assert_eq!(f.sha256, "94bdbcf5680e1aa89d522a1adc40d00b3c9f2096b904def4cdcf509d22c784b2");
    assert_eq!(f.size_kb, 1024);
    assert_eq!((f.model.as_str(), f.version.as_str()), ("FieldKit A1", "1.4.2"));
    assert!(is_id(&f.id, "fw_"));
    let f = plan_firmware(FirmwareBody { model: "m".into(), version: "v".into(), size_kb: 2048 }).ok().unwrap();
    assert_eq!(f.size_kb, 2048);
    let e = plan_firmware(FirmwareBody { model: "m".into(), version: "".into(), size_kb: 1 }).unwrap_err();
    assert_eq!((e.status, e.message.as_str()), (400, "model and version are required"));
}

#[test]
fn config_profiles() {
    let p = plan_profile(" Night mode ").ok().unwrap();
    assert_eq!(p.name, "Night mode");
    assert!(is_id(&p.id, "cfg_"));
    assert_eq!(plan_profile("").unwrap_err().status, 400);
}

#[test]
fn campaign_targets() {
    assert_eq!(hundred(), 100);
    let devices = vec![device(Some("f1")), device(Some("f1")), device(Some("f2")), device(None)];
    let c = plan_campaign(
        CampaignBody { firmware_id: " fw_1 ".into(), fleet_id: None, canary_pct: 50 },
        &devices,
    )
    .ok()
    .unwrap();
    assert_eq!((c.canary_pct, c.total), (50, 2));
    assert_eq!(c.firmware_id, "fw_1");
    assert!(is_id(&c.id, "ota_"));
    let c = plan_campaign(
        CampaignBody { firmware_id: "fw".into(), fleet_id: Some("f1".into()), canary_pct: 250 },
        &devices,
    )
    .ok()
    .unwrap();
    assert_eq!((c.canary_pct, c.total), (100, 2));
    let c = plan_campaign(
        CampaignBody { firmware_id: "fw".into(), fleet_id: Some("f9".into()), canary_pct: -5 },
        &devices,
    )
    .ok()
    .unwrap();
    assert_eq!((c.canary_pct, c.total), (1, 1));
    let c = plan_campaign(
        CampaignBody { firmware_id: "fw".into(), fleet_id: Some(String::new()), canary_pct: 10 },
        &devices,
    )
    .ok()
    .unwrap();
    assert_eq!((c.fleet_id, c.total), (None, 1));
    let e = plan_campaign(CampaignBody { firmware_id: " ".into(), fleet_id: None, canary_pct: 100 }, &devices)
        .unwrap_err();
    assert_eq!((e.status, e.message.as_str()), (400, "firmware is required"));
}

#[test]
fn commands() {
    let e = plan_send(false, "dev_1", SendBody { name: "reboot".into(), args: String::new() }).unwrap_err();
    assert_eq!((e.status, e.message.as_str()), (404, "device not found"));
    let e = plan_send(true, "dev_1", SendBody { name: " ".into(), args: String::new() }).unwrap_err();
    assert_eq!((e.status, e.message.as_str()), (400, "command name is required"));
    let c = plan_send(true, "dev_1", SendBody { name: " reboot ".into(), args: "now".into() }).ok().unwrap();
    assert_eq!((c.device_id.as_str(), c.name.as_str(), c.args.as_str()), ("dev_1", "reboot", "now"));
    assert!(is_id(&c.id, "cmd_"));
}

#[test]
fn fleet_creation() {
    let f = fleets::plan_create(fleets::CreateBody { name: " North ".into(), description: "d".into() })
        .ok()
        .unwrap();
    assert_eq!(f.name, "North");
    assert!(is_id(&f.id, "flt_"));
    let e = fleets::plan_create(fleets::CreateBody { name: "".into(), description: "".into() }).unwrap_err();
    assert_eq!((e.status, e.message.as_str()), (400, "name is required"));
}

#[test]
fn team_roles() {
    assert_eq!(role_or_default("admin"), "admin");
    assert_eq!(role_or_default("viewer"), "viewer");
    assert_eq!(role_or_default("root"), "operator");
    assert_eq!(role_or_default(""), "operator");
    assert_eq!(active(), "active");
    assert!(can_manage(&claims("owner")));
    assert!(can_manage(&claims("admin")));
    assert!(!can_manage(&claims("operator")));
    assert!(!can_manage(&claims("viewer")));
}

#[test]
fn team_invites() {
    let body = |password: &str| ops::CreateBody {
        name: " Kamran ".into(),
        email: " Kamran@Switchboard.LOCAL ".into(),
        role: "superuser".into(),
        password: password.into(),
    };
    let e = ops::plan_create(&claims("operator"), body("secret1")).unwrap_err();
    assert_eq!((e.status, e.message.as_str()), (403, "only owners and admins can manage the team"));
    let e = ops::plan_create(&claims("admin"), body("12345")).unwrap_err();
    assert_eq!((e.status, e.message.as_str()), (400, "name, email, and a 6+ character password are required"));
    let o = ops::plan_create(&claims("admin"), body("secret1")).ok().unwrap();
    assert_eq!(o.name, "Kamran");
    assert_eq!(o.email, "kamran@switchboard.local");
    assert_eq!(o.role, "operator");
    assert!(switchboard::session::verify_passcode(&o.password_hash, "secret1"));
    assert!(is_id(&o.id, "op_"));
}

#[test]
fn team_edits_and_removals() {
    let body = ops::UpdateBody {
        name: "A ".into(),
        email: "A@B.C".into(),
        role: "viewer".into(),
        status: "suspended".into(),
        password: "short".into(),
    };
    let u = plan_operator_update(&claims("owner"), body).ok().unwrap();
    assert_eq!((u.name.as_str(), u.email.as_str(), u.role.as_str(), u.status.as_str()), ("A", "a@b.c", "viewer", "suspended"));
    assert!(u.password_hash.is_none());
    let body = ops::UpdateBody {
        name: "A".into(),
        email: "a@b.c".into(),
        role: "".into(),
        status: "active".into(),
        password: "longer-pass".into(),
    };
    let u = plan_operator_update(&claims("admin"), body).ok().unwrap();
    assert!(switchboard::session::verify_passcode(&u.password_hash.unwrap(), "longer-pass"));
    let e = check_delete(&claims("admin"), Some("owner".into())).unwrap_err();
    assert_eq!((e.status, e.message.as_str()), (400, "cannot remove an owner"));
    assert!(check_delete(&claims("admin"), Some("viewer".into())).is_ok());
    assert!(check_delete(&claims("owner"), None).is_ok());
    assert_eq!(check_delete(&claims("viewer"), None).unwrap_err().status, 403);
}

#[test]
fn rules() {
    assert_eq!(default_op(), "gt");
    assert_eq!(default_sev(), "warning");
    let r = plan_rule(" Hot ", " tempC ", "lt", "critical").ok().unwrap();
    assert_eq!((r.name.as_str(), r.metric.as_str(), r.op.as_str(), r.severity.as_str()), ("Hot", "tempC", "lt", "critical"));
    assert!(is_id(&r.id, "rule_"));
    let r = plan_rule("Hot", "tempC", "le", "major").ok().unwrap();
    assert_eq!((r.op.as_str(), r.severity.as_str()), ("gt", "warning"));
    let e = plan_rule("Hot", " ", "gt", "warning").unwrap_err();
    assert_eq!((e.status, e.message.as_str()), (400, "name and metric are required"));
}

#[test]
fn passcode_rotation_and_webhook() {
    let stored = hash_passcode("switchboard").unwrap();
    let e = plan_passcode_change(Some(stored.clone()), &PasscodeBody { current: "nope".into(), next: "newpass1".into() })
        .unwrap_err();
    assert_eq!((e.status, e.message.as_str()), (401, "current passcode is incorrect"));
    let e = plan_passcode_change(Some(stored.clone()), &PasscodeBody { current: " switchboard ".into(), next: " abc ".into() })
        .unwrap_err();
    assert_eq!((e.status, e.message.as_str()), (400, "the new passcode must be at least 6 characters"));
    let h = plan_passcode_change(Some(stored), &PasscodeBody { current: "switchboard".into(), next: " newpass1 ".into() })
        .ok()
        .unwrap();
    assert!(switchboard::session::verify_passcode(&h, "newpass1"));
    assert_eq!(plan_passcode_change(None, &PasscodeBody { current: "".into(), next: "newpass1".into() }).unwrap_err().status, 401);
    assert_eq!(webhook_url(&WebhookBody { url: "  https://hooks.example/x \n".into() }), "https://hooks.example/x");
}
