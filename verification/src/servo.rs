//! Servos: how the position of a control axis becomes a pulse width.
//!
//! An axis position is an IEEE-754 binary64 value. It is held here as its bit
//! pattern, and everything that is decided about it (its sign, whether it is
//! a number at all, whether it lies beyond the unit interval) is decided on
//! that pattern. The blend between two pulse widths is binary64 arithmetic
//! too, carried out on whole numbers.

use vstd::prelude::*;
use crate::binary64::{blend, blended, lemma_blended_at_ends, SIGNIFICAND_LIMIT};

verus! {

/// Default period of the servo signal, in microseconds.
pub const DEFAULT_SERVO_PERIOD: u64 = 20000;

/// Default pulse width at the lower end of travel, in microseconds.
pub const DEFAULT_SERVO_PULSE_MIN: u64 = 1000;

/// Default pulse width at the centre of travel, in microseconds.
pub const DEFAULT_SERVO_PULSE_NEUTRAL: u64 = 1500;

/// Default pulse width at the upper end of travel, in microseconds.
pub const DEFAULT_SERVO_PULSE_MAX: u64 = 2000;

/// The sign bit of a binary64 pattern.
pub const SIGN_BIT: u64 = 0x8000_0000_0000_0000;

/// The pattern of positive infinity; every larger magnitude is not a number.
pub const INFINITY_BITS: u64 = 0x7ff0_0000_0000_0000;

/// The pattern of 1.0.
pub const ONE_BITS: u64 = 0x3ff0_0000_0000_0000;

/// The position of a control axis: a binary64 value, held as its bit pattern.
#[derive(Clone, Copy, Debug, PartialEq, Eq, Hash, Structural)]
pub struct Axis(pub u64);

impl Axis {
    /// The pattern without its sign bit. Among values that are numbers, the
    /// larger magnitude has the larger pattern.
    pub open spec fn magnitude(self) -> u64 {
        (self.0 % SIGN_BIT) as u64
    }

    /// Whether the sign bit is set.
    pub open spec fn sign(self) -> bool {
        self.0 >= SIGN_BIT
    }

    /// Whether the value is not a number.
    pub open spec fn is_nan(self) -> bool {
        self.magnitude() > INFINITY_BITS
    }

    /// Whether the value is positive or negative zero.
    pub open spec fn is_zero(self) -> bool {
        self.magnitude() == 0
    }

    /// Whether the value lies at or beyond an end of the unit interval: its
    /// magnitude is one or more, or it is infinite, or it is not a number.
    pub open spec fn is_beyond_unit(self) -> bool {
        self.magnitude() >= ONE_BITS
    }

    /// The value clamped to the interval from -1 to 1, both bounds included.
    /// A number beyond a bound becomes that bound. What is not a number
    /// becomes the bound on the side of its sign bit, so that the result is
    /// always a number of the interval.
    pub open spec fn clamped(self) -> Axis {
        if self.is_beyond_unit() {
            if self.sign() {
                Axis((SIGN_BIT + ONE_BITS) as u64)
            } else {
                Axis(ONE_BITS)
            }
        } else {
            self
        }
    }

    /// The centre position, positive zero.
    pub fn zero() -> (axis: Axis)
        ensures
            axis == Axis(0),
    {
        Axis(0)
    }

    /// The axis position with the bit pattern `bits`.
    pub fn from_bits(bits: u64) -> (axis: Axis)
        ensures
            axis == Axis(bits),
    {
        Axis(bits)
    }

    pub fn to_bits(self) -> (bits: u64)
        ensures
            bits == self.0,
    {
        self.0
    }

    /// Clamps the position to the interval from -1 to 1.
    pub fn clamp(self) -> (clamped: Axis)
        ensures
            clamped == self.clamped(),
    {
        let magnitude = self.0 % SIGN_BIT;
        if magnitude >= ONE_BITS {
            if self.0 >= SIGN_BIT {
                Axis(SIGN_BIT + ONE_BITS)
            } else {
                Axis(ONE_BITS)
            }
        } else {
            self
        }
    }
}

/// The output a servo is wired to.
#[derive(Clone, Copy, Debug, PartialEq, Eq, Structural)]
pub enum ServoPin {
    /// First hardware PWM channel.
    Pwm0,
    /// Second hardware PWM channel.
    Pwm1,
    /// First software-timed output.
    Soft1,
    /// Second software-timed output.
    Soft2,
}

/// The four widths of a servo signal, in microseconds.
#[derive(Clone, Copy, Debug, PartialEq, Eq, Structural)]
pub struct Timing {
    pub period: u64,
    pub pulse_min: u64,
    pub pulse_neutral: u64,
    pub pulse_max: u64,
}

impl Timing {
    /// Whether the widths can drive a servo: all are positive, the neutral
    /// width lies between the two ends, and every pulse is shorter than the
    /// period.
    pub open spec fn valid(self) -> bool {
        0 < self.pulse_min <= self.pulse_neutral <= self.pulse_max < self.period
    }

    /// The pulse width, in microseconds, that moves a servo of this timing to
    /// `amount`.
    ///
    /// The amount is clamped to the interval from -1 to 1. Zero gives the
    /// neutral width, -1 the lower end and 1 the upper end. In between the
    /// width is
    /// `(1 - t) * pulse_neutral + t * end`, where `t` is the magnitude of the
    /// amount and `end` the end on its side: formed in binary64 arithmetic,
    /// the fraction cut off.
    pub open spec fn pulse(self, amount: Axis) -> u64 {
        let clamped = amount.clamped();
        if clamped.is_zero() {
            self.pulse_neutral
        } else {
            let end = if clamped.sign() {
                self.pulse_min
            } else {
                self.pulse_max
            };
            if clamped.magnitude() == ONE_BITS {
                end
            } else {
                blended(self.pulse_neutral, end, clamped.magnitude())
            }
        }
    }

    pub fn is_valid(&self) -> (valid: bool)
        ensures
            valid == self.valid(),
    {
        0 < self.pulse_min && self.pulse_min <= self.pulse_neutral && self.pulse_neutral
            <= self.pulse_max && self.pulse_max < self.period
    }

    /// Computes `pulse`.
    pub fn pulse_width(&self, amount: Axis) -> (micros: u64)
        ensures
            micros == self.pulse(amount),
    {
        let clamped = amount.clamp();
        let magnitude = clamped.0 % SIGN_BIT;
        if magnitude == 0 {
            self.pulse_neutral
        } else {
            let end = if clamped.0 >= SIGN_BIT {
                self.pulse_min
            } else {
                self.pulse_max
            };
            if magnitude == ONE_BITS {
                end
            } else {
                blend(self.pulse_neutral, end, magnitude)
            }
        }
    }
}

/// What a `Servo` is: its timing, its output, the pulse width its output was
/// given last, and whether the output is still driven.
pub struct ServoView {
    pub timing: Timing,
    pub pin: ServoPin,
    pub last_pulse: u64,
    pub enabled: bool,
}

/// One servo and the state of its output.
///
/// A servo starts out driven to its neutral width. `rotate` moves it, and
/// `disable` releases its output for good.
#[derive(Clone, Copy, Debug, PartialEq, Eq)]
pub struct Servo {
    timing: Timing,
    pin: ServoPin,
    last_pulse: u64,
    enabled: bool,
}

impl View for Servo {
    type V = ServoView;

    closed spec fn view(&self) -> ServoView {
        ServoView {
            timing: self.timing,
            pin: self.pin,
            last_pulse: self.last_pulse,
            enabled: self.enabled,
        }
    }
}

impl Servo {
    #[verifier::type_invariant]
    spec fn timing_is_valid(self) -> bool {
        self.timing.valid()
    }

    /// The servo of the given timing on `pin`, driven to its neutral width.
    /// There is none for a timing that is not valid.
    pub fn new(period: u64, pulse_min: u64, pulse_neutral: u64, pulse_max: u64, pin: ServoPin) -> (servo:
        Option<Servo>)
        ensures
            servo is Some == (Timing { period, pulse_min, pulse_neutral, pulse_max }).valid(),
            servo matches Some(servo) ==> servo@ == (ServoView {
                timing: Timing { period, pulse_min, pulse_neutral, pulse_max },
                pin,
                last_pulse: pulse_neutral,
                enabled: true,
            }),
    {
        let timing = Timing { period, pulse_min, pulse_neutral, pulse_max };
        if !timing.is_valid() {
            return None;
        }
        let mut servo = Servo {
            timing,
            pin,
            last_pulse: pulse_neutral,
            enabled: true,
        };
        let _neutral = servo.rotate(Axis::zero());
        Some(servo)
    }

    /// Moves the servo to `amount` and says which pulse width, in
    /// microseconds, its output has to emit. A disabled servo stays as it
    /// is, and nothing is to be emitted.
    pub fn rotate(&mut self, amount: Axis) -> (micros: Option<u64>)
        ensures
            !old(self)@.enabled ==> micros is None && final(self)@ == old(self)@,
            old(self)@.enabled ==> {
                &&& micros == Some(old(self)@.timing.pulse(amount))
                &&& final(self)@ == (ServoView {
                    last_pulse: old(self)@.timing.pulse(amount),
                    ..old(self)@
                })
            },
    {
        proof {
            use_type_invariant(&*self);
        }
        if !self.enabled {
            return None;
        }
        let micros = self.timing.pulse_width(amount);
        self.last_pulse = micros;
        Some(micros)
    }

    /// Releases the output: from now on the servo is not driven.
    pub fn disable(&mut self)
        ensures
            final(self)@ == (ServoView { enabled: false, ..old(self)@ }),
    {
        proof {
            use_type_invariant(&*self);
        }
        self.enabled = false;
    }

    pub fn timing(&self) -> (timing: Timing)
        ensures
            timing == self@.timing,
            timing.valid(),
    {
        proof {
            use_type_invariant(self);
        }
        self.timing
    }

    pub fn pin(&self) -> (pin: ServoPin)
        ensures
            pin == self@.pin,
    {
        self.pin
    }

    /// The pulse width that the output was given last, in microseconds.
    pub fn last_pulse(&self) -> (micros: u64)
        ensures
            micros == self@.last_pulse,
    {
        self.last_pulse
    }

    pub fn is_enabled(&self) -> (enabled: bool)
        ensures
            enabled == self@.enabled,
    {
        self.enabled
    }
}

/// Clamping first changes nothing: an amount and its clamped value give the
/// same pulse width.
pub proof fn lemma_pulse_of_clamped(timing: Timing, amount: Axis)
    ensures
        timing.pulse(amount) == timing.pulse(amount.clamped()),
{
}

/// The ends and the centre of travel: -1 gives the lower end, 1 the upper
/// end, and zero of either sign the neutral width. Anything beyond an end,
/// an infinity included, gives that end. What is not a number gives the end
/// on the side of its sign bit: never the neutral width, and never a width
/// of its own.
pub proof fn lemma_pulse_at_bounds(timing: Timing, amount: Axis)
    ensures
        amount.is_zero() ==> timing.pulse(amount) == timing.pulse_neutral,
        amount.is_beyond_unit() && amount.sign() ==> timing.pulse(amount) == timing.pulse_min,
        amount.is_beyond_unit() && !amount.sign() ==> timing.pulse(amount) == timing.pulse_max,
        amount.is_nan() ==> amount.is_beyond_unit(),
{
}

/// With widths that binary64 holds exactly, the pulse width is the blend
/// between the neutral width and the end on the side of the amount, at the
/// magnitude of the clamped amount: in between, at the centre and at both
/// ends.
pub proof fn lemma_pulse_is_blend(timing: Timing, amount: Axis)
    requires
        timing.valid(),
        timing.period <= SIGNIFICAND_LIMIT,
    ensures
        timing.pulse(amount) == blended(
            timing.pulse_neutral,
            if amount.sign() {
                timing.pulse_min
            } else {
                timing.pulse_max
            },
            amount.clamped().magnitude(),
        ),
{
    lemma_blended_at_ends(timing.pulse_neutral, timing.pulse_min);
    lemma_blended_at_ends(timing.pulse_neutral, timing.pulse_max);
}

/// A clamped value is a number of the unit interval, on the side of the
/// value it came from.
pub proof fn lemma_clamped_is_in_unit(amount: Axis)
    ensures
        !amount.clamped().is_nan(),
        amount.clamped().magnitude() <= ONE_BITS,
        amount.clamped().sign() == amount.sign(),
{
}

} // verus!
