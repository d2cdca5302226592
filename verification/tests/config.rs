use switchboard::config::{parse_u16, str_setting, u16_setting, Config, DEFAULT_PORT};

#[test]
fn parses_u16_like_std() {
    for s in ["7930", "+80", "0", "00080", "65535", "65536", "-1", "", "+", " 80", "80 ", "8o", "99999999999"] {
        assert_eq!(parse_u16(s), s.parse::<u16>().ok(), "input {:?}", s);
    }
}

#[test]
fn settings_fall_back_to_defaults() {
    assert_eq!(DEFAULT_PORT, 7930);
    assert_eq!(u16_setting(Some("8080"), DEFAULT_PORT), 8080);
    assert_eq!(u16_setting(Some("http"), DEFAULT_PORT), 7930);
    assert_eq!(u16_setting(None, DEFAULT_PORT), 7930);
    assert_eq!(str_setting(Some("/srv/data".into()), "data"), "/srv/data");
    assert_eq!(str_setting(None, "data"), "data");
}

#[test]
fn derived_paths() {
    let cfg = Config {
        port: 7930,
        dist_dir: "crates/web/dist".into(),
        data_dir: "data".into(),
        passcode_override: None,
    };
    assert_eq!(cfg.db_path(), "data/switchboard.db");
    assert_eq!(cfg.vault_key_path(), "data/.vault-key");
}
