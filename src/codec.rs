use vstd::prelude::*;

use crate::error::BrightnessError;

verus! {

/// VCP feature code of the brightness control.
pub const BRIGHTNESS_VCP_CODE: u8 = 0x10;

/// Reply to a "get VCP feature" request: the high and low bytes of the
/// maximum (`mh`, `ml`) and of the current value (`sh`, `sl`).
#[derive(Clone, Copy, Debug, PartialEq, Eq, Structural)]
pub struct VcpValue {
    pub mh: u8,
    pub ml: u8,
    pub sh: u8,
    pub sl: u8,
}

impl VcpValue {
    /// The current value.
    pub open spec fn current(self) -> int {
        self.sh * 256 + self.sl
    }

    /// The maximum value.
    pub open spec fn maximum(self) -> int {
        self.mh * 256 + self.ml
    }

    /// The maximum value of the reply.
    pub fn maximum_exec(&self) -> (r: u16)
        ensures
            r == self.maximum(),
    {
        self.mh as u16 * 256 + self.ml as u16
    }

    /// A reply that a percentage can be read from.
    pub open spec fn is_consistent(self) -> bool {
        0 < self.maximum() && self.current() <= self.maximum()
    }
}

/// `n / d` rounded to the nearest integer, halves upwards.
pub open spec fn round_div(n: int, d: int) -> int {
    (2 * n + d) / (2 * d)
}

/// `current / maximum * 100`, rounded.
pub open spec fn percentage_of(current: int, maximum: int) -> int {
    round_div(100 * current, maximum)
}

/// `percentage / 100 * maximum`, rounded.
pub open spec fn raw_of(percentage: int, maximum: int) -> int {
    round_div(percentage * maximum, 100)
}

/// Splits a reply into its current and maximum values.
pub fn value_to_current_and_max(value: VcpValue) -> (r: (u16, u16))
    ensures
        r.0 == value.current(),
        r.1 == value.maximum(),
{
    (value.sh as u16 * 256 + value.sl as u16, value.mh as u16 * 256 + value.ml as u16)
}

/// The brightness of a reply as a rounded percentage; a zero maximum or a
/// current value above the maximum is an invalid device state.
pub fn to_percentage(value: VcpValue) -> (r: Result<u16, BrightnessError>)
    ensures
        r is Ok <==> value.is_consistent(),
        r is Ok ==> r->Ok_0 == percentage_of(value.current(), value.maximum()),
        r is Ok ==> r->Ok_0 <= 100,
        r is Err ==> r->Err_0 == BrightnessError::InvalidDeviceState,
{
    let (current, maximum) = value_to_current_and_max(value);
    if maximum == 0 || current > maximum {
        return Err(BrightnessError::InvalidDeviceState);
    }
    let c = current as u32;
    let m = maximum as u32;
    proof {
        assert(200 * c + m <= 201 * m) by (nonlinear_arith)
            requires c <= m;
        assert((200 * c + m) / (2 * m) <= 100) by (nonlinear_arith)
            requires 200 * c + m <= 201 * m, m > 0;
    }
    let p = (200 * c + m) / (2 * m);
    Ok(p as u16)
}

/// The raw value for a percentage in [0, 100] of `maximum`, rounded.
pub fn percentage_to_raw(percentage: u16, maximum: u16) -> (r: u16)
    requires
        percentage <= 100,
    ensures
        r == raw_of(percentage as int, maximum as int),
        r <= maximum,
{
    let p = percentage as u32;
    let m = maximum as u32;
    proof {
        assert(p * m <= 100 * m) by (nonlinear_arith)
            requires p <= 100;
        assert((2 * (p * m) + 100) / 200 <= m) by (nonlinear_arith)
            requires p * m <= 100 * m;
    }
    let r = (2 * (p * m) + 100) / 200;
    r as u16
}

} // verus!
