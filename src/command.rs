use vstd::prelude::*;

use crate::codec::{percentage_of, percentage_to_raw, raw_of, to_percentage, VcpValue};
use crate::error::BrightnessError;

verus! {

/// A requested brightness: an absolute percentage, or a signed change of
/// the current percentage.
#[derive(Clone, Copy, Debug, PartialEq, Eq, Structural)]
pub enum BrightnessCommand {
    Absolute(i16),
    Relative(i16),
}

/// An ASCII decimal digit.
pub open spec fn is_digit(c: char) -> bool {
    '0' <= c && c <= '9'
}

/// Whether every character of `s` is a decimal digit.
pub open spec fn all_digits(s: Seq<char>) -> bool {
    forall|i: int| 0 <= i < s.len() ==> is_digit(#[trigger] s[i])
}

/// The number that a string of decimal digits denotes.
pub open spec fn digits_value(s: Seq<char>) -> int
    decreases s.len(),
{
    if s.len() == 0 {
        0
    } else {
        10 * digits_value(s.drop_last()) + (s.last() as int - '0' as int)
    }
}

/// A leading `+` or `-`.
pub open spec fn is_sign(c: char) -> bool {
    c == '+' || c == '-'
}

/// The integer written as an optional sign followed by one or more decimal
/// digits, if `s` has that form.
pub open spec fn decimal_value(s: Seq<char>) -> Option<int> {
    if s.len() > 0 && is_sign(s[0]) {
        let body = s.drop_first();
        if body.len() > 0 && all_digits(body) {
            Some(if s[0] == '-' { -digits_value(body) } else { digits_value(body) })
        } else {
            None
        }
    } else if s.len() > 0 && all_digits(s) {
        Some(digits_value(s))
    } else {
        None
    }
}

/// The `i16` that `s` denotes, if it is a decimal integer in range.
pub open spec fn parse_i16_spec(s: Seq<char>) -> Option<i16> {
    match decimal_value(s) {
        Some(v) => if i16::MIN <= v <= i16::MAX {
            Some(v as i16)
        } else {
            None
        },
        None => None,
    }
}

/// The command a token stands for: a signed token is a relative change,
/// any other an absolute percentage.
pub open spec fn command_of(s: Seq<char>) -> Option<BrightnessCommand> {
    match parse_i16_spec(s) {
        Some(v) => if is_sign(s[0]) {
            Some(BrightnessCommand::Relative(v))
        } else {
            Some(BrightnessCommand::Absolute(v))
        },
        None => None,
    }
}

/// `p` clamped to [0, 100].
pub open spec fn clamp_percentage(p: int) -> int {
    if p < 0 {
        0
    } else if p > 100 {
        100
    } else {
        p
    }
}

/// The percentage a command asks for; a relative change is added to the
/// current percentage before clamping.
pub open spec fn target_percentage_spec(command: BrightnessCommand, current: int) -> int {
    match command {
        BrightnessCommand::Absolute(p) => clamp_percentage(p as int),
        BrightnessCommand::Relative(d) => clamp_percentage(current + d),
    }
}

/// The raw value a command asks for, given the current percentage and the
/// monitor's maximum.
pub open spec fn target_raw_spec(command: BrightnessCommand, current: int, maximum: int) -> int {
    raw_of(target_percentage_spec(command, current), maximum)
}

/// Appending a digit multiplies the value so far by ten and adds the digit.
proof fn lemma_digits_step(s: Seq<char>, start: int, i: int)
    requires
        0 <= start <= i < s.len(),
    ensures
        digits_value(s.subrange(start, i + 1)) == 10 * digits_value(s.subrange(start, i)) + (
        s[i] as int - '0' as int),
{
    assert(s.subrange(start, i + 1).drop_last() =~= s.subrange(start, i));
}

/// Parses a decimal `i16`: an optional sign and one or more digits.
pub fn parse_i16(token: &str) -> (r: Option<i16>)
    ensures
        r == parse_i16_spec(token@),
{
    let n = token.unicode_len();
    if n == 0 {
        return None;
    }
    let first = token.get_char(0);
    let start: usize = if first == '+' || first == '-' { 1 } else { 0 };
    if start == n {
        return None;
    }
    let ghost s = token@;
    // Saturates above every magnitude an i16 can have.
    let cap: u32 = 40000;
    let mut acc: u32 = 0;
    let mut i: usize = start;
    while i < n
        invariant
            s == token@,
            n == s.len(),
            start <= i <= n,
            start < n,
            cap == 40000,
            start == (if is_sign(s[0]) { 1int } else { 0int }),
            all_digits(s.subrange(start as int, i as int)),
            acc == if digits_value(s.subrange(start as int, i as int)) < cap {
                digits_value(s.subrange(start as int, i as int))
            } else {
                cap as int
            },
        decreases n - i,
    {
        let c = token.get_char(i);
        if !('0' <= c && c <= '9') {
            proof {
                assert(s.subrange(start as int, n as int)[i - start] == c);
                assert(!all_digits(s.subrange(start as int, n as int)));
                if start == 1 {
                    assert(s.drop_first() =~= s.subrange(1, n as int));
                } else {
                    assert(s =~= s.subrange(0, n as int));
                }
            }
            return None;
        }
        let d = (c as u32) - ('0' as u32);
        proof {
            lemma_digits_step(s, start as int, i as int);
            assert(digits_value(s.subrange(start as int, i as int)) >= 0) by {
                lemma_digits_nonneg(s.subrange(start as int, i as int));
            }
        }
        assert(d <= 9);
        if acc >= cap {
            acc = cap;
        } else if 10 * acc + d >= cap {
            acc = cap;
        } else {
            acc = 10 * acc + d;
        }
        proof {
            assert(all_digits(s.subrange(start as int, i + 1))) by {
                assert forall|k: int| 0 <= k < i + 1 - start implies is_digit(
                    #[trigger] s.subrange(start as int, i + 1)[k],
                ) by {
                    if k < i - start {
                        assert(s.subrange(start as int, i + 1)[k] == s.subrange(
                            start as int,
                            i as int,
                        )[k]);
                    }
                }
            }
        }
        i = i + 1;
    }
    proof {
        if start == 1 {
            assert(s.drop_first() =~= s.subrange(1, n as int));
        } else {
            assert(s =~= s.subrange(0, n as int));
        }
    }
    if first == '-' {
        if acc <= 32768 {
            Some((0 - (acc as i32)) as i16)
        } else {
            None
        }
    } else {
        if acc <= 32767 {
            Some(acc as i16)
        } else {
            None
        }
    }
}

/// A string of digits denotes a non-negative number.
proof fn lemma_digits_nonneg(s: Seq<char>)
    requires
        all_digits(s),
    ensures
        digits_value(s) >= 0,
    decreases s.len(),
{
    if s.len() > 0 {
        assert(all_digits(s.drop_last())) by {
            assert forall|k: int| 0 <= k < s.len() - 1 implies is_digit(
                #[trigger] s.drop_last()[k],
            ) by {
                assert(s.drop_last()[k] == s[k]);
            }
        }
        lemma_digits_nonneg(s.drop_last());
        assert(is_digit(s[s.len() - 1]));
    }
}

/// Reads a brightness token: `+n` or `-n` is a relative change, a bare
/// number an absolute percentage; anything else is invalid input.
pub fn parse_command(token: &str) -> (r: Result<BrightnessCommand, BrightnessError>)
    ensures
        r == match command_of(token@) {
            Some(c) => Ok(c),
            None => Err(BrightnessError::InvalidInput),
        },
{
    match parse_i16(token) {
        Some(v) => {
            let first = token.get_char(0);
            if first == '+' || first == '-' {
                Ok(BrightnessCommand::Relative(v))
            } else {
                Ok(BrightnessCommand::Absolute(v))
            }
        },
        None => Err(BrightnessError::InvalidInput),
    }
}

/// The percentage a command asks for, clamped to [0, 100]; a relative
/// change is clamped only after it is added to `current_percentage`.
pub fn target_percentage(command: BrightnessCommand, current_percentage: i16) -> (r: i16)
    ensures
        r == target_percentage_spec(command, current_percentage as int),
        0 <= r <= 100,
{
    let p: i32 = match command {
        BrightnessCommand::Absolute(p) => p as i32,
        BrightnessCommand::Relative(d) => current_percentage as i32 + d as i32,
    };
    if p < 0 {
        0
    } else if p > 100 {
        100
    } else {
        p as i16
    }
}

/// The raw value to write for a command, given the current percentage and
/// the monitor's maximum.
pub fn resolve_target(command: BrightnessCommand, current_percentage: i16, maximum: u16) -> (r:
    u16)
    ensures
        r == target_raw_spec(command, current_percentage as int, maximum as int),
        r <= maximum,
{
    let p = target_percentage(command, current_percentage);
    percentage_to_raw(p as u16, maximum)
}

/// What a set-brightness command writes: the target percentage and the raw
/// value that stands for it.
#[derive(Clone, Copy, Debug, PartialEq, Eq, Structural)]
pub struct BrightnessChange {
    pub percentage: i16,
    pub raw: u16,
}

/// Plans a set-brightness command from its token and the monitor's reply:
/// an inconsistent reply is an invalid device state, checked first; then a
/// malformed token is invalid input.
pub fn plan_set_brightness(token: &str, value: VcpValue) -> (r: Result<
    BrightnessChange,
    BrightnessError,
>)
    ensures
        !value.is_consistent() ==> r == Err::<BrightnessChange, BrightnessError>(
            BrightnessError::InvalidDeviceState,
        ),
        value.is_consistent() ==> r == match command_of(token@) {
            Some(c) => {
                let current = percentage_of(value.current(), value.maximum());
                Ok(
                    BrightnessChange {
                        percentage: target_percentage_spec(c, current) as i16,
                        raw: target_raw_spec(c, current, value.maximum()) as u16,
                    },
                )
            },
            None => Err(BrightnessError::InvalidInput),
        },
{
    let current = match to_percentage(value) {
        Ok(p) => p as i16,
        Err(e) => return Err(e),
    };
    let command = match parse_command(token) {
        Ok(c) => c,
        Err(e) => return Err(e),
    };
    let percentage = target_percentage(command, current);
    let raw = resolve_target(command, current, value.maximum_exec());
    Ok(BrightnessChange { percentage, raw })
}

/// Setting an absolute percentage and reading the monitor back gives that
/// percentage again, within one, whenever the maximum is at least 34.
pub proof fn lemma_absolute_round_trip(p: i16, current: int, maximum: int)
    requires
        0 <= p <= 100,
        34 <= maximum <= 0xffff,
    ensures
        ({
            let raw = target_raw_spec(BrightnessCommand::Absolute(p), current, maximum);
            &&& 0 <= raw <= maximum
            &&& p - 1 <= percentage_of(raw, maximum) <= p + 1
        }),
{
    let m = maximum;
    let pi = p as int;
    let raw = raw_of(pi, m);
    assert(target_percentage_spec(BrightnessCommand::Absolute(p), current) == pi);
    let x = 2 * (pi * m) + 100;
    assert(x >= 100) by (nonlinear_arith)
        requires x == 2 * (pi * m) + 100, pi >= 0, m >= 0;
    assert(raw == x / 200);
    assert(200 * raw <= x < 200 * raw + 200) by (nonlinear_arith)
        requires raw == x / 200, x >= 0;
    assert(pi * m <= 100 * m) by (nonlinear_arith)
        requires pi <= 100, m >= 0;
    assert(0 <= raw <= m);
    let y = 2 * (100 * raw) + m;
    let q = y / (2 * m);
    assert(q == percentage_of(raw, m));
    assert(2 * m * q <= y < 2 * m * q + 2 * m) by (nonlinear_arith)
        requires q == y / (2 * m), y >= 0, m > 0;
    assert(q <= pi + 1) by (nonlinear_arith)
        requires
            2 * m * q <= y,
            y == 2 * (100 * raw) + m,
            200 * raw <= x,
            x == 2 * (pi * m) + 100,
            m >= 34,
    {
        if q >= pi + 2 {
            assert(2 * m * q >= 2 * m * (pi + 2));
        }
    }
    assert(q >= pi - 1) by (nonlinear_arith)
        requires
            y < 2 * m * q + 2 * m,
            y == 2 * (100 * raw) + m,
            x < 200 * raw + 200,
            x == 2 * (pi * m) + 100,
            m >= 34,
    {
        if q <= pi - 2 {
            assert(2 * m * q <= 2 * m * (pi - 2));
        }
    }
}

} // verus!
