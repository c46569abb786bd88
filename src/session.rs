use vstd::prelude::*;

verus! {

/// A display output as the compositor reports it.
pub struct OutputState {
    pub name: String,
    pub focused: bool,
}

/// The name of the first focused output, if any output is focused.
pub fn get_active_output(outputs: &Vec<OutputState>) -> (r: Option<String>)
    ensures
        r is None ==> forall|i: int| 0 <= i < outputs@.len() ==> !(#[trigger] outputs@[i]).focused,
        r is Some ==> exists|i: int|
            0 <= i < outputs@.len() && (#[trigger] outputs@[i]).focused && r->Some_0@
                == outputs@[i].name@ && forall|j: int| 0 <= j < i ==> !(#[trigger] outputs@[j]).focused,
{
    let mut i: usize = 0;
    while i < outputs.len()
        invariant
            i <= outputs@.len(),
            forall|j: int| 0 <= j < i ==> !(#[trigger] outputs@[j]).focused,
        decreases outputs.len() - i,
    {
        if outputs[i].focused {
            let name = outputs[i].name.clone();
            assert(outputs@[i as int].focused);
            return Some(name);
        }
        i = i + 1;
    }
    None
}

/// A call to the login manager's session object that sets the level of a
/// kernel backlight device, which needs no privilege of the caller.
pub struct BacklightCall {
    pub destination: String,
    pub path: String,
    pub interface: String,
    pub method: String,
    /// Device class, always `backlight`.
    pub subsystem: String,
    /// Backlight device name, such as `intel_backlight`.
    pub device: String,
    /// Raw backlight level.
    pub level: u16,
}

/// The call that sets the backlight device `backlight_device` to the raw
/// level `value`.
pub fn set_edp_brightness(backlight_device: &str, value: u16) -> (r: BacklightCall)
    ensures
        r.destination@ == "org.freedesktop.login1"@,
        r.path@ == "/org/freedesktop/login1/session/auto"@,
        r.interface@ == "org.freedesktop.login1.Session"@,
        r.method@ == "SetBrightness"@,
        r.subsystem@ == "backlight"@,
        r.device@ == backlight_device@,
        r.level == value,
{
    BacklightCall {
        destination: String::from_str("org.freedesktop.login1"),
        path: String::from_str("/org/freedesktop/login1/session/auto"),
        interface: String::from_str("org.freedesktop.login1.Session"),
        method: String::from_str("SetBrightness"),
        subsystem: String::from_str("backlight"),
        device: String::from_str(backlight_device),
        level: value,
    }
}

} // verus!
