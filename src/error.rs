use vstd::prelude::*;

verus! {

/// Every way a brightness command can fail.
#[derive(Clone, Copy, Debug, PartialEq, Eq, Structural)]
pub enum BrightnessError {
    /// The output is an embedded panel, which has no DDC/CI channel.
    UnsupportedOutput,
    /// No display output directory matches the requested output.
    OutputNotFound,
    /// The output exists, but no known layout yields its I2C bus.
    DeviceNotFound,
    /// The I2C device could not be opened.
    DeviceAccessError,
    /// The DDC/CI transaction failed or the reply was malformed.
    ProtocolError,
    /// The brightness token is not a number in the accepted form.
    InvalidInput,
    /// The monitor reported a zero maximum, or a current value above it.
    InvalidDeviceState,
}

} // verus!
