//! Fixed-point quantities shared by every module.
//!
//! * Time is counted in ticks; [`MICROS`] ticks make one second.
//! * Damage, spell power and intellect are `u64` billionths of a point
//!   ([`POINT`] stands for one point) and saturate at `u64::MAX`.
//! * The share of spell power that a spell adds to its damage is counted in
//!   parts per billion.
//! * Chances and multipliers are parts per million ([`PPM`] stands for 1.0).
//! * A roll is a raw 64-bit draw; its upper 53 bits are a uniform fraction.

use vstd::prelude::*;

verus! {

/// Ticks per second, and the fixed-point representation of the number one.
pub const MICROS: i64 = 1_000_000;

/// Parts per million that stand for a chance or multiplier of exactly one.
pub const PPM: u64 = 1_000_000;

/// Billionths that make one point of damage, spell power or intellect.
pub const POINT: u64 = 1_000_000_000;

/// Longest trial, and longest delay, cast time, travel time or period that
/// the scheduler is handed, in ticks.
pub const HORIZON: i64 = 1_000_000_000_000_000;

/// A raw roll is divided by this to obtain its 53-bit fraction.
pub const ROLL_STEP: u64 = 2048;

/// Number of distinct fractions a roll can take (two to the power 53).
pub const ROLL_SPAN: u64 = 9_007_199_254_740_992;

/// A countdown: either not scheduled at all, or due in so many ticks.
/// A value of zero or less means the moment has been reached.
#[derive(Clone, Copy, PartialEq, Eq, Structural, Debug)]
pub enum Timer {
    Never,
    In(i64),
}

/// A value read by a rule: a fixed-point number in millionths, or one that
/// exceeds every number (the remaining time of a countdown that never ends).
#[derive(Clone, Copy, PartialEq, Eq, Structural, Debug)]
pub enum Reading {
    Unbounded,
    Exact(i128),
}

impl Timer {
    /// Bounds that keep a countdown representable: it was armed with at
    /// most twice the horizon, and has run since the clock stood at zero.
    pub open spec fn within(self, clock: int) -> bool {
        match self {
            Timer::Never => true,
            Timer::In(t) => -2 * HORIZON - clock <= t <= 2 * HORIZON,
        }
    }

    /// Scheduled and not in the past.
    pub open spec fn pending(self) -> bool {
        match self {
            Timer::Never => true,
            Timer::In(t) => 0 <= t,
        }
    }

    /// The countdown after `dt` ticks have passed.
    pub open spec fn after(self, dt: int) -> Timer {
        match self {
            Timer::Never => Timer::Never,
            Timer::In(t) => Timer::In((t - dt) as i64),
        }
    }

    pub open spec fn spec_is_never(self) -> bool {
        self is Never
    }

    pub open spec fn spec_is_active(self) -> bool {
        match self {
            Timer::Never => true,
            Timer::In(t) => t > 0,
        }
    }

    pub open spec fn spec_is_ready(self) -> bool {
        !self.spec_is_active()
    }

    /// Order of countdowns, in which `Never` comes after every finite one.
    pub open spec fn spec_at_most(self, other: Timer) -> bool {
        match (self, other) {
            (_, Timer::Never) => true,
            (Timer::Never, Timer::In(_)) => false,
            (Timer::In(a), Timer::In(b)) => a <= b,
        }
    }

    pub open spec fn spec_earlier(self, other: Timer) -> Timer {
        if self.spec_at_most(other) {
            self
        } else {
            other
        }
    }

    pub open spec fn spec_later(self, other: Timer) -> Timer {
        if self.spec_at_most(other) {
            other
        } else {
            self
        }
    }

    /// Strictly less than `x` ticks left.
    pub open spec fn spec_below(self, x: i64) -> bool {
        match self {
            Timer::Never => false,
            Timer::In(t) => t < x,
        }
    }

    pub open spec fn spec_remaining(self) -> Reading {
        match self {
            Timer::Never => Reading::Unbounded,
            Timer::In(t) => Reading::Exact(if t > 0 { t as i128 } else { 0 }),
        }
    }

    /// Whether the countdown is not scheduled.
    #[verifier::when_used_as_spec(spec_is_never)]
    pub fn is_never(self) -> (r: bool)
        ensures
            r == self.spec_is_never(),
    {
        match self {
            Timer::Never => true,
            Timer::In(_) => false,
        }
    }

    /// True while the countdown has time left (a countdown that never ends
    /// always has).
    #[verifier::when_used_as_spec(spec_is_active)]
    pub fn is_active(self) -> (r: bool)
        ensures
            r == self.spec_is_active(),
    {
        match self {
            Timer::Never => true,
            Timer::In(t) => t > 0,
        }
    }

    /// True once the countdown has reached zero.
    #[verifier::when_used_as_spec(spec_is_ready)]
    pub fn is_ready(self) -> (r: bool)
        ensures
            r == self.spec_is_ready(),
    {
        !self.is_active()
    }

    #[verifier::when_used_as_spec(spec_at_most)]
    pub fn at_most(self, other: Timer) -> (r: bool)
        ensures
            r == self.spec_at_most(other),
    {
        match other {
            Timer::Never => true,
            Timer::In(b) => match self {
                Timer::Never => false,
                Timer::In(a) => a <= b,
            },
        }
    }

    /// Whether strictly less than `x` ticks are left.
    #[verifier::when_used_as_spec(spec_below)]
    pub fn below(self, x: i64) -> (r: bool)
        ensures
            r == self.spec_below(x),
    {
        match self {
            Timer::Never => false,
            Timer::In(t) => t < x,
        }
    }

    /// The sooner of two countdowns; on a tie, `self`.
    #[verifier::when_used_as_spec(spec_earlier)]
    pub fn earlier(self, other: Timer) -> (r: Timer)
        ensures
            r == self.spec_earlier(other),
    {
        if self.at_most(other) {
            self
        } else {
            other
        }
    }

    /// The later of two countdowns.
    #[verifier::when_used_as_spec(spec_later)]
    pub fn later(self, other: Timer) -> (r: Timer)
        ensures
            r == self.spec_later(other),
    {
        if self.at_most(other) {
            other
        } else {
            self
        }
    }

    /// Lets `dt` ticks pass.
    pub fn elapse(self, dt: i64) -> (r: Timer)
        requires
            self matches Timer::In(t) ==> i64::MIN <= t - dt <= i64::MAX,
        ensures
            r == self.after(dt as int),
    {
        match self {
            Timer::Never => Timer::Never,
            Timer::In(t) => Timer::In(t - dt),
        }
    }

    /// Time left on the countdown, never less than zero.
    #[verifier::when_used_as_spec(spec_remaining)]
    pub fn remaining(self) -> (r: Reading)
        ensures
            r == self.spec_remaining(),
    {
        match self {
            Timer::Never => Reading::Unbounded,
            Timer::In(t) => Reading::Exact(if t > 0 { t as i128 } else { 0 }),
        }
    }
}

impl Reading {
    /// The reading of a whole number.
    pub open spec fn spec_whole(n: i64) -> Reading {
        Reading::Exact((n * 1_000_000) as i128)
    }

    /// The reading of a yes or a no: one or zero.
    pub open spec fn spec_flag(b: bool) -> Reading {
        if b {
            Reading::Exact(1_000_000)
        } else {
            Reading::Exact(0)
        }
    }

    /// Order of readings, in which `Unbounded` comes after every number.
    pub open spec fn spec_at_most(self, other: Reading) -> bool {
        match (self, other) {
            (_, Reading::Unbounded) => true,
            (Reading::Unbounded, Reading::Exact(_)) => false,
            (Reading::Exact(a), Reading::Exact(b)) => a <= b,
        }
    }

    #[verifier::when_used_as_spec(spec_whole)]
    pub fn whole(n: i64) -> (r: Reading)
        ensures
            r == Reading::spec_whole(n),
    {
        Reading::Exact((n as i128) * 1_000_000)
    }

    #[verifier::when_used_as_spec(spec_flag)]
    pub fn flag(b: bool) -> (r: Reading)
        ensures
            r == Reading::spec_flag(b),
    {
        if b {
            Reading::Exact(1_000_000)
        } else {
            Reading::Exact(0)
        }
    }

    #[verifier::when_used_as_spec(spec_at_most)]
    pub fn at_most(self, other: Reading) -> (r: bool)
        ensures
            r == self.spec_at_most(other),
    {
        match other {
            Reading::Unbounded => true,
            Reading::Exact(b) => match self {
                Reading::Unbounded => false,
                Reading::Exact(a) => a <= b,
            },
        }
    }
}

/// The amount nearest to `x` that a ledger can hold.
pub open spec fn clamp_amount(x: int) -> u64 {
    if x < 0 {
        0
    } else if x > u64::MAX {
        u64::MAX
    } else {
        x as u64
    }
}

/// `x` multiplied by `ppm` millionths, rounded down and saturated.
pub open spec fn scaled(x: u64, ppm: u64) -> u64 {
    clamp_amount((x as int * ppm as int) / 1_000_000)
}

/// `x` multiplied by `ppb` billionths, rounded down and saturated.
pub open spec fn scaled_fine(x: u64, ppb: u64) -> u64 {
    clamp_amount((x as int * ppb as int) / 1_000_000_000)
}

/// The sum of two amounts, saturated.
pub open spec fn accrued(a: u64, b: u64) -> u64 {
    clamp_amount(a + b)
}

/// The fraction carried by a roll, as a numerator over [`ROLL_SPAN`].
pub open spec fn unit_of(roll: u64) -> int {
    roll as int / 2048
}

/// Whether the roll's fraction is strictly below a chance given in parts
/// per million.
pub open spec fn spec_roll_below(roll: u64, chance: u64) -> bool {
    unit_of(roll) * 1_000_000 < chance as int * ROLL_SPAN as int
}

/// The roll's fraction of `range`, rounded down.
pub open spec fn spec_roll_spread(roll: u64, range: u64) -> u64 {
    ((range as int * unit_of(roll)) / ROLL_SPAN as int) as u64
}

/// A roll never yields more than the whole range.
pub proof fn lemma_roll_spread_bounds(roll: u64, range: u64)
    ensures
        (range as int * unit_of(roll)) / ROLL_SPAN as int <= range,
        0 <= (range as int * unit_of(roll)) / ROLL_SPAN as int,
        spec_roll_spread(roll, range) <= range,
{
    let u = unit_of(roll);
    let span = ROLL_SPAN as int;
    assert(range as int * u <= range as int * span) by (nonlinear_arith)
        requires
            0 <= u < span,
            0 <= range as int,
    ;
    assert(0 <= range as int * u) by (nonlinear_arith)
        requires
            0 <= u,
            0 <= range as int,
    ;
    vstd::arithmetic::div_mod::lemma_div_is_ordered(range as int * u, range as int * span, span);
    vstd::arithmetic::div_mod::lemma_div_by_multiple(range as int, span);
    vstd::arithmetic::div_mod::lemma_div_pos_is_pos(range as int * u, span);
}

/// A multiplier of exactly one leaves an amount as it is.
pub proof fn lemma_scaled_by_one(x: u64)
    ensures
        scaled(x, 1_000_000) == x,
{
    vstd::arithmetic::div_mod::lemma_div_by_multiple(x as int, 1_000_000);
}

/// A multiplier of one or more never lowers an amount.
pub proof fn lemma_scaled_grows(x: u64, ppm: u64)
    requires
        ppm >= 1_000_000,
    ensures
        scaled(x, ppm) >= x,
{
    assert(x as int * ppm as int >= x as int * 1_000_000) by (nonlinear_arith)
        requires
            ppm as int >= 1_000_000,
            x as int >= 0,
    ;
    vstd::arithmetic::div_mod::lemma_div_is_ordered(x as int * 1_000_000, x as int * ppm as int, 1_000_000);
    vstd::arithmetic::div_mod::lemma_div_by_multiple(x as int, 1_000_000);
}

/// `x` multiplied by `ppm` millionths, rounded down and saturated.
pub fn scale(x: u64, ppm: u64) -> (r: u64)
    ensures
        r == scaled(x, ppm),
{
    assert(x as int * ppm as int <= u64::MAX as int * u64::MAX as int) by (nonlinear_arith)
        requires
            0 <= x as int <= u64::MAX as int,
            0 <= ppm as int <= u64::MAX as int,
    ;
    assert(0 <= x as int * ppm as int) by (nonlinear_arith)
        requires
            0 <= x as int,
            0 <= ppm as int,
    ;
    let wide: u128 = (x as u128) * (ppm as u128);
    let q: u128 = wide / 1_000_000u128;
    if q > u64::MAX as u128 {
        u64::MAX
    } else {
        q as u64
    }
}

/// `x` multiplied by `ppb` billionths, rounded down and saturated.
pub fn scale_fine(x: u64, ppb: u64) -> (r: u64)
    ensures
        r == scaled_fine(x, ppb),
{
    assert(x as int * ppb as int <= u64::MAX as int * u64::MAX as int) by (nonlinear_arith)
        requires
            0 <= x as int <= u64::MAX as int,
            0 <= ppb as int <= u64::MAX as int,
    ;
    assert(0 <= x as int * ppb as int) by (nonlinear_arith)
        requires
            0 <= x as int,
            0 <= ppb as int,
    ;
    let wide: u128 = (x as u128) * (ppb as u128);
    let q: u128 = wide / 1_000_000_000u128;
    if q > u64::MAX as u128 {
        u64::MAX
    } else {
        q as u64
    }
}

/// Scales only where `apply` holds.
pub open spec fn scaled_if(apply: bool, x: u64, ppm: u64) -> u64 {
    if apply {
        scaled(x, ppm)
    } else {
        x
    }
}

/// Scales only where `apply` holds.
pub fn scale_if(apply: bool, x: u64, ppm: u64) -> (r: u64)
    ensures
        r == scaled_if(apply, x, ppm),
{
    if apply {
        scale(x, ppm)
    } else {
        x
    }
}

/// The sum of two amounts, saturated.
pub fn accrue(a: u64, b: u64) -> (r: u64)
    ensures
        r == accrued(a, b),
{
    a.saturating_add(b)
}

/// Whether the roll's fraction is strictly below `chance`.
#[verifier::when_used_as_spec(spec_roll_below)]
pub fn roll_below(roll: u64, chance: u64) -> (r: bool)
    ensures
        r == spec_roll_below(roll, chance),
{
    let unit: u128 = (roll / ROLL_STEP) as u128;
    assert(chance as int * ROLL_SPAN as int <= u64::MAX as int * ROLL_SPAN as int) by (nonlinear_arith)
        requires
            0 <= chance as int <= u64::MAX as int,
    ;
    unit * 1_000_000u128 < (chance as u128) * (ROLL_SPAN as u128)
}

/// The roll's fraction of `range`, rounded down.
#[verifier::when_used_as_spec(spec_roll_spread)]
pub fn roll_spread(roll: u64, range: u64) -> (r: u64)
    ensures
        r == spec_roll_spread(roll, range),
        r <= range,
{
    proof {
        lemma_roll_spread_bounds(roll, range);
    }
    let unit: u128 = (roll / ROLL_STEP) as u128;
    assert(range as int * unit_of(roll) <= u64::MAX as int * ROLL_SPAN as int) by (nonlinear_arith)
        requires
            0 <= range as int <= u64::MAX as int,
            0 <= unit_of(roll) < ROLL_SPAN as int,
    ;
    assert(0 <= range as int * unit_of(roll)) by (nonlinear_arith)
        requires
            0 <= range as int,
            0 <= unit_of(roll),
    ;
    let wide: u128 = (range as u128) * unit;
    (wide / (ROLL_SPAN as u128)) as u64
}

} // verus!
