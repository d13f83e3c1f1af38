use light_for_all_agent::status::{
    apply_orientation, build_state, default_light_state, get_state, initial_light_state, now_iso,
    reported_state, AppData, LightMode, LightState, Orientation, Settings,
};

fn data_with(mode: &str, message: &str, orientation: Orientation) -> AppData {
    AppData {
        current_state: LightState {
            mode: mode.to_string(),
            received_at: "100".to_string(),
            message: message.to_string(),
        },
        settings: Settings { orientation, auto_start: false },
    }
}

#[test]
fn mode_names() {
    assert_eq!(LightMode::Idle.as_str(), "idle");
    assert_eq!(LightMode::Working.as_str(), "working");
    assert_eq!(LightMode::Waiting.as_str(), "waiting");
    assert_eq!(LightMode::Error.as_str(), "error");
}

#[test]
fn mode_from_known_names() {
    assert_eq!(LightMode::from_str("working"), LightMode::Working);
    assert_eq!(LightMode::from_str("waiting"), LightMode::Waiting);
    assert_eq!(LightMode::from_str("error"), LightMode::Error);
    assert_eq!(LightMode::from_str("idle"), LightMode::Idle);
}

#[test]
fn mode_names_ignore_ascii_case() {
    assert_eq!(LightMode::from_str("WORKING"), LightMode::Working);
    assert_eq!(LightMode::from_str("WaItInG"), LightMode::Waiting);
    assert_eq!(LightMode::from_str("Error"), LightMode::Error);
}

#[test]
fn unknown_modes_are_idle() {
    assert_eq!(LightMode::from_str(""), LightMode::Idle);
    assert_eq!(LightMode::from_str("busy"), LightMode::Idle);
    assert_eq!(LightMode::from_str(" working"), LightMode::Idle);
    assert_eq!(LightMode::from_str("workingx"), LightMode::Idle);
    assert_eq!(LightMode::from_str("ＷＯＲＫＩＮＧ"), LightMode::Idle);
}

#[test]
fn mode_name_round_trip() {
    for m in [LightMode::Idle, LightMode::Working, LightMode::Waiting, LightMode::Error] {
        assert_eq!(LightMode::from_str(m.as_str()), m);
    }
}

#[test]
fn orientation_names_round_trip() {
    assert_eq!(Orientation::Horizontal.as_str(), "horizontal");
    assert_eq!(Orientation::Vertical.as_str(), "vertical");
    for o in [Orientation::Horizontal, Orientation::Vertical] {
        assert_eq!(Orientation::from_name(o.as_str()), Some(o));
    }
}

#[test]
fn orientation_names_are_exact() {
    assert_eq!(Orientation::from_name("Horizontal"), None);
    assert_eq!(Orientation::from_name("diagonal"), None);
    assert_eq!(Orientation::from_name(""), None);
}

#[test]
fn defaults() {
    assert_eq!(Orientation::default(), Orientation::Horizontal);
    let s = Settings::default();
    assert_eq!(s.orientation, Orientation::Horizontal);
    assert!(!s.auto_start);
}

#[test]
fn now_is_decimal_seconds() {
    let before = std::time::SystemTime::now()
        .duration_since(std::time::UNIX_EPOCH)
        .unwrap()
        .as_secs();
    let text = now_iso();
    let after = std::time::SystemTime::now()
        .duration_since(std::time::UNIX_EPOCH)
        .unwrap()
        .as_secs();
    assert!(!text.is_empty());
    assert!(text.chars().all(|c| c.is_ascii_digit()));
    assert!(!text.starts_with('0'));
    let secs: u64 = text.parse().unwrap();
    assert!(before <= secs && secs <= after);
}

#[test]
fn initial_state_waits_for_agent() {
    let s = initial_light_state("42".to_string());
    assert_eq!(s.mode, "idle");
    assert_eq!(s.received_at, "42");
    assert_eq!(s.message, "等待 Agent 连接");
    let d = default_light_state();
    assert_eq!(d.mode, "idle");
    assert_eq!(d.message, "等待 Agent 连接");
    assert!(d.received_at.parse::<u64>().is_ok());
}

#[test]
fn build_state_keeps_loaded_settings() {
    let settings = Settings { orientation: Orientation::Vertical, auto_start: true };
    let d = build_state(settings);
    assert_eq!(d.settings, settings);
    assert_eq!(d.current_state.mode, "idle");
    assert_eq!(d.current_state.message, "等待 Agent 连接");
}

#[test]
fn get_state_reports_everything() {
    let d = data_with("waiting", "确认一下", Orientation::Vertical);
    let p = get_state(&d, true);
    assert_eq!(p.current_state.mode, "waiting");
    assert_eq!(p.current_state.message, "确认一下");
    assert_eq!(p.current_state.received_at, "100");
    assert_eq!(p.orientation, "vertical");
    assert!(p.auto_start);
    let q = get_state(&d, false);
    assert!(!q.auto_start);
}

#[test]
fn reported_state_normalises() {
    let s = reported_state(Some("ERROR"), Some("npm failed"), "7".to_string());
    assert_eq!(s.mode, "error");
    assert_eq!(s.message, "npm failed");
    assert_eq!(s.received_at, "7");
    let t = reported_state(None, None, "8".to_string());
    assert_eq!(t.mode, "idle");
    assert_eq!(t.message, "");
    let u = reported_state(Some("unknown"), None, "9".to_string());
    assert_eq!(u.mode, "idle");
}

#[test]
fn apply_orientation_sets_valid_names() {
    let mut d = data_with("working", "m", Orientation::Horizontal);
    assert_eq!(apply_orientation(&mut d, "vertical"), Ok(()));
    assert_eq!(d.settings.orientation, Orientation::Vertical);
    assert_eq!(d.current_state.mode, "working");
    assert_eq!(d.current_state.message, "m");
    assert_eq!(apply_orientation(&mut d, "horizontal"), Ok(()));
    assert_eq!(d.settings.orientation, Orientation::Horizontal);
}

#[test]
fn apply_orientation_refuses_other_names() {
    let mut d = data_with("working", "m", Orientation::Vertical);
    assert_eq!(apply_orientation(&mut d, "sideways"), Err("无效方向".to_string()));
    assert_eq!(d.settings.orientation, Orientation::Vertical);
    assert_eq!(apply_orientation(&mut d, "VERTICAL"), Err("无效方向".to_string()));
}

#[test]
fn orientation_change_keeps_reported_state() {
    let mut d = data_with("error", "boom", Orientation::Horizontal);
    apply_orientation(&mut d, "vertical").unwrap();
    let p = get_state(&d, false);
    assert_eq!(p.current_state.mode, "error");
    assert_eq!(p.current_state.message, "boom");
    assert_eq!(p.orientation, "vertical");
}
