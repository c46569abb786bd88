use monitor_brightness::error::BrightnessError;
use monitor_brightness::resolver::{
    bus_locators, device_path, find_output, has_prefix, has_suffix, is_embedded_panel,
    locate_bus, BusLocator, OutputProbe,
};

fn names(v: &[&str]) -> Vec<String> {
    v.iter().map(|s| s.to_string()).collect()
}

fn probe(children: &[&str], link: Option<&str>, intel: Option<&str>) -> OutputProbe {
    OutputProbe {
        children: names(children),
        ddc_link_name: link.map(|s| s.to_string()),
        i2c_dev_first: intel.map(|s| s.to_string()),
    }
}

#[test]
fn prefix_and_suffix() {
    assert!(has_prefix("i2c-7", "i2c-"));
    assert!(!has_prefix("i2c", "i2c-"));
    assert!(has_prefix("abc", ""));
    assert!(has_suffix("/sys/class/drm/card0-DP-1", "DP-1"));
    assert!(!has_suffix("/sys/class/drm/card0-DP-1", "DP-2"));
    assert!(!has_suffix("P-1", "DP-1"));
}

#[test]
fn embedded_panels_are_recognised() {
    assert!(is_embedded_panel("eDP-1"));
    assert!(!is_embedded_panel("DP-1"));
    assert!(!is_embedded_panel("HDMI-A-1"));
}

#[test]
fn device_path_is_under_dev() {
    assert_eq!(device_path("i2c-7"), "/dev/i2c-7");
}

#[test]
fn embedded_output_is_refused_whatever_the_entries() {
    let entries = names(&["/sys/class/drm/card0-eDP-1"]);
    assert_eq!(find_output("eDP-1", &entries), Err(BrightnessError::UnsupportedOutput));
    assert_eq!(find_output("eDP-1", &Vec::new()), Err(BrightnessError::UnsupportedOutput));
}

#[test]
fn finds_first_matching_output() {
    let entries = names(&[
        "/sys/class/drm/card0",
        "/sys/class/drm/card0-DP-1",
        "/sys/class/drm/card0-HDMI-A-1",
        "/sys/class/drm/card1-DP-1",
    ]);
    assert_eq!(find_output("HDMI-A-1", &entries), Ok(2));
    assert_eq!(find_output("DP-1", &entries), Ok(1));
    assert_eq!(find_output("DP-3", &entries), Err(BrightnessError::OutputNotFound));
}

#[test]
fn subdirectory_strategy_wins_over_intel_layout() {
    let p = probe(&["ddc", "enabled", "i2c-7", "status"], None, Some("i2c-3"));
    assert_eq!(locate_bus(&p), Ok("/dev/i2c-7".to_string()));
}

#[test]
fn subdirectory_strategy_wins_over_symlink() {
    let p = probe(&["i2c-4"], Some("i2c-9"), Some("i2c-3"));
    assert_eq!(locate_bus(&p), Ok("/dev/i2c-4".to_string()));
}

#[test]
fn symlink_strategy_before_intel() {
    let p = probe(&["ddc", "status"], Some("i2c-9"), Some("i2c-3"));
    assert_eq!(locate_bus(&p), Ok("/dev/i2c-9".to_string()));
}

#[test]
fn intel_strategy_last() {
    let p = probe(&["ddc", "status"], None, Some("i2c-3"));
    assert_eq!(locate_bus(&p), Ok("/dev/i2c-3".to_string()));
}

#[test]
fn no_strategy_is_device_not_found() {
    let p = probe(&["ddc", "status"], None, None);
    assert_eq!(locate_bus(&p), Err(BrightnessError::DeviceNotFound));
}

#[test]
fn strategies_in_fixed_order() {
    assert_eq!(
        bus_locators(),
        vec![BusLocator::AmdSubdirectory, BusLocator::AmdDdcSymlink, BusLocator::IntelI2cDev]
    );
    let p = probe(&["i2c-1"], Some("i2c-2"), Some("i2c-3"));
    assert_eq!(BusLocator::IntelI2cDev.try_locate(&p), Some("/dev/i2c-3".to_string()));
    assert_eq!(BusLocator::AmdDdcSymlink.try_locate(&p), Some("/dev/i2c-2".to_string()));
}
