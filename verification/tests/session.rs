use switchboard::session::{
    check_expiry, hash_passcode, is_read_only, new_secret, now, open_token, seal_token,
    secret_from_bytes, sign, timestamp, token_expiry, verify_passcode, Claims, SESSION_TTL_SECS,
};

fn claims_json(exp: i64, oid: &str, role: &str, name: &str) -> Vec<u8> {
    let mut map = serde_json::Map::new();
    map.insert("exp".to_string(), serde_json::Value::from(exp));
    map.insert("oid".to_string(), serde_json::Value::from(oid));
    map.insert("role".to_string(), serde_json::Value::from(role));
    map.insert("name".to_string(), serde_json::Value::from(name));
    serde_json::to_vec(&serde_json::Value::Object(map)).unwrap()
}

fn issue(secret: &str, oid: &str, role: &str, name: &str) -> String {
    let exp = token_expiry(now());
    seal_token(secret, &claims_json(exp, oid, role, name))
}

fn parse(secret: &str, token: &str) -> Option<Claims> {
    let bytes = open_token(secret, token)?;
    let v: serde_json::Value = serde_json::from_slice(&bytes).ok()?;
    let claims = Claims {
        exp: v["exp"].as_i64()?,
        oid: v["oid"].as_str()?.to_string(),
        role: v["role"].as_str()?.to_string(),
        name: v["name"].as_str()?.to_string(),
    };
    check_expiry(claims, now())
}

#[test]
fn token_roundtrip() {
    let secret = new_secret();
    let tok = issue(&secret, "op_x", "admin", "Rza");
    let claims = parse(&secret, &tok).expect("valid token");
    assert_eq!(claims.role, "admin");
    assert_eq!(claims.name, "Rza");
}

#[test]
fn tampered_or_wrong_secret_rejected() {
    let tok = issue(&new_secret(), "op_x", "owner", "A");
    assert!(parse(&new_secret(), &tok).is_none());
}

#[test]
fn passcode_hash_verifies() {
    let h = hash_passcode("switchboard").unwrap();
    assert!(verify_passcode(&h, "switchboard"));
    assert!(!verify_passcode(&h, "wrong"));
    assert!(!verify_passcode("", "switchboard"));
}

#[test]
fn passcode_hash_is_bcrypt_form() {
    let h = hash_passcode("hunter22").unwrap();
    assert_eq!(h.len(), 60);
    assert!(h.starts_with("$2b$12$"));
    assert_ne!(h, "hunter22");
}

#[test]
fn malformed_hash_matches_nothing() {
    assert!(!verify_passcode("not-a-bcrypt-hash", "switchboard"));
}

#[test]
fn sign_is_hmac_sha256_base64url() {
    assert_eq!(sign("secret", "payload"), "uC_LeRrOxXhZuYm0MKgmSIzi5Hn9-SMmvQoug3WkK6Q");
}

#[test]
fn sealed_token_layout() {
    let tok = seal_token("secret", b"{\"exp\":1}");
    let expected = format!("eyJleHAiOjF9.{}", sign("secret", "eyJleHAiOjF9"));
    assert_eq!(tok, expected);
    assert_eq!(open_token("secret", &tok), Some(b"{\"exp\":1}".to_vec()));
}

#[test]
fn tampered_payload_rejected() {
    let tok = seal_token("secret", b"{\"exp\":1}");
    let forged = tok.replacen("eyJ", "eyK", 1);
    assert_eq!(open_token("secret", &forged), None);
}

#[test]
fn token_without_dot_rejected() {
    assert_eq!(open_token("secret", "abcdef"), None);
    assert_eq!(open_token("secret", ""), None);
}

#[test]
fn signed_but_undecodable_payload_rejected() {
    let payload = "not*base64";
    let tok = format!("{}.{}", payload, sign("secret", payload));
    assert_eq!(open_token("secret", &tok), None);
}

#[test]
fn expired_claims_rejected() {
    let c = Claims { exp: 10, oid: "o".into(), role: "viewer".into(), name: "N".into() };
    assert!(check_expiry(c.clone(), 11).is_none());
    assert_eq!(check_expiry(c.clone(), 10).map(|c| c.exp), Some(10));
    assert_eq!(check_expiry(c, 9).map(|c| c.role), Some("viewer".to_string()));
}

#[test]
fn session_lasts_its_lifetime() {
    let issued = 1_700_000_000;
    let c = Claims { exp: token_expiry(issued), oid: "o".into(), role: "admin".into(), name: "N".into() };
    assert!(check_expiry(c.clone(), issued).is_some());
    assert!(check_expiry(c.clone(), issued + SESSION_TTL_SECS).is_some());
    assert!(check_expiry(c, issued + SESSION_TTL_SECS + 1).is_none());
}

#[test]
fn token_expiry_adds_twelve_hours() {
    assert_eq!(SESSION_TTL_SECS, 43200);
    assert_eq!(token_expiry(1_000), 44_200);
}

#[test]
fn viewer_is_read_only() {
    assert!(is_read_only("viewer"));
    assert!(!is_read_only("operator"));
    assert!(!is_read_only("Viewer"));
    assert!(!is_read_only(""));
}

#[test]
fn secrets_are_base64url_of_32_bytes() {
    assert_eq!(secret_from_bytes(&[0xff, 0xff, 0xff]), "____");
    let s = new_secret();
    assert_eq!(s.len(), 43);
    assert!(s.chars().all(|c| c.is_ascii_alphanumeric() || c == '-' || c == '_'));
    assert_ne!(new_secret(), new_secret());
}

#[test]
fn clock_readings() {
    assert_eq!(timestamp(Some(1_700_000_000)), 1_700_000_000);
    assert_eq!(timestamp(None), 0);
    assert!(now() > 1_600_000_000);
}
