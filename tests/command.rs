use monitor_brightness::codec::VcpValue;
use monitor_brightness::command::{
    parse_command, parse_i16, plan_set_brightness, resolve_target, target_percentage,
    BrightnessChange, BrightnessCommand,
};
use monitor_brightness::error::BrightnessError;

fn value(current: u16, maximum: u16) -> VcpValue {
    VcpValue {
        mh: (maximum >> 8) as u8,
        ml: (maximum & 0xff) as u8,
        sh: (current >> 8) as u8,
        sl: (current & 0xff) as u8,
    }
}

#[test]
fn parses_like_std() {
    for s in ["0", "7", "+7", "-7", "100", "0042", "-0", "32767", "-32768", "32768", "-32769",
        "", "+", "-", "+-1", "1x", "x1", " 1", "99999999999", "١"]
    {
        assert_eq!(parse_i16(s), s.parse::<i16>().ok(), "token {:?}", s);
    }
}

#[test]
fn signed_tokens_are_relative() {
    assert_eq!(parse_command("+10"), Ok(BrightnessCommand::Relative(10)));
    assert_eq!(parse_command("-5"), Ok(BrightnessCommand::Relative(-5)));
    assert_eq!(parse_command("50"), Ok(BrightnessCommand::Absolute(50)));
    assert_eq!(parse_command("150"), Ok(BrightnessCommand::Absolute(150)));
}

#[test]
fn malformed_tokens_are_invalid_input() {
    for s in ["", "abc", "+", "5%", "40000", "+x"] {
        assert_eq!(parse_command(s), Err(BrightnessError::InvalidInput), "token {:?}", s);
    }
}

#[test]
fn relative_increase_clamps_at_hundred() {
    assert_eq!(target_percentage(BrightnessCommand::Relative(20), 95), 100);
}

#[test]
fn relative_decrease_clamps_at_zero() {
    assert_eq!(target_percentage(BrightnessCommand::Relative(-20), 5), 0);
}

#[test]
fn absolute_is_clamped() {
    assert_eq!(target_percentage(BrightnessCommand::Absolute(150), 10), 100);
    assert_eq!(target_percentage(BrightnessCommand::Absolute(-3), 10), 0);
    assert_eq!(target_percentage(BrightnessCommand::Absolute(42), 10), 42);
}

#[test]
fn relative_change_does_not_overflow() {
    assert_eq!(target_percentage(BrightnessCommand::Relative(i16::MAX), 100), 100);
    assert_eq!(target_percentage(BrightnessCommand::Relative(i16::MIN), 0), 0);
}

#[test]
fn resolves_raw_targets() {
    assert_eq!(resolve_target(BrightnessCommand::Absolute(50), 0, 64), 32);
    assert_eq!(resolve_target(BrightnessCommand::Relative(10), 50, 64), 38);
    assert_eq!(resolve_target(BrightnessCommand::Relative(20), 95, 200), 200);
}

#[test]
fn end_to_end_absolute() {
    assert_eq!(
        plan_set_brightness("50", value(10, 64)),
        Ok(BrightnessChange { percentage: 50, raw: 32 })
    );
}

#[test]
fn end_to_end_relative() {
    assert_eq!(
        plan_set_brightness("+10", value(32, 64)),
        Ok(BrightnessChange { percentage: 60, raw: 38 })
    );
}

#[test]
fn plan_reports_device_state_before_input() {
    assert_eq!(plan_set_brightness("abc", value(0, 0)), Err(BrightnessError::InvalidDeviceState));
    assert_eq!(plan_set_brightness("abc", value(3, 64)), Err(BrightnessError::InvalidInput));
}
