use monitor_brightness::session::{get_active_output, set_edp_brightness, OutputState};

fn output(name: &str, focused: bool) -> OutputState {
    OutputState { name: name.to_string(), focused }
}

#[test]
fn active_output_is_first_focused() {
    let outputs = vec![output("eDP-1", false), output("DP-1", true), output("DP-2", true)];
    assert_eq!(get_active_output(&outputs), Some("DP-1".to_string()));
}

#[test]
fn no_focused_output() {
    let outputs = vec![output("eDP-1", false), output("DP-1", false)];
    assert_eq!(get_active_output(&outputs), None);
    assert_eq!(get_active_output(&Vec::new()), None);
}

#[test]
fn backlight_call_targets_login_session() {
    let call = set_edp_brightness("intel_backlight", 512);
    assert_eq!(call.destination, "org.freedesktop.login1");
    assert_eq!(call.path, "/org/freedesktop/login1/session/auto");
    assert_eq!(call.interface, "org.freedesktop.login1.Session");
    assert_eq!(call.method, "SetBrightness");
    assert_eq!(call.subsystem, "backlight");
    assert_eq!(call.device, "intel_backlight");
    assert_eq!(call.level, 512);
}
