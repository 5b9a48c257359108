//! Programmable Interval Timer (Intel 8253/8254): the divisor for a tick
//! frequency, the frequency a divisor gives, and the bytes that program
//! channel 0.

use vstd::prelude::*;

verus! {

/// The PIT input clock in Hz.
pub const PIT_BASE_FREQ: u32 = 1193182;

/// The default tick frequency in Hz (10 ms ticks).
pub const PIT_DEFAULT_FREQ: u32 = 100;

/// Channel 0, lobyte/hibyte access, mode 3 (square wave), binary.
pub const PIT_COMMAND_BYTE: u8 = 0x36;

/// The divisor for a frequency: the base frequency divided by it, clamped
/// to 1..=65535; 1 for frequency 0.
pub open spec fn spec_divisor(frequency: u32) -> u16 {
    if frequency == 0 {
        1
    } else if PIT_BASE_FREQ / frequency > 0xFFFF {
        0xFFFF
    } else if PIT_BASE_FREQ / frequency < 1 {
        1
    } else {
        (PIT_BASE_FREQ / frequency) as u16
    }
}

/// The frequency a divisor gives: the base frequency divided by it, the
/// base frequency for divisor 0.
pub open spec fn spec_frequency(divisor: u16) -> u32 {
    if divisor == 0 {
        PIT_BASE_FREQ
    } else {
        PIT_BASE_FREQ / (divisor as u32)
    }
}

/// The divisor to program for a frequency.
pub fn calculate_divisor(frequency: u32) -> (r: u16)
    ensures
        r == spec_divisor(frequency),
{
    if frequency == 0 {
        return 1;
    }
    let divisor = PIT_BASE_FREQ / frequency;
    if divisor > 0xFFFF {
        0xFFFF
    } else if divisor < 1 {
        1
    } else {
        divisor as u16
    }
}

/// The frequency a programmed divisor gives.
pub fn get_frequency(divisor: u16) -> (r: u32)
    ensures
        r == spec_frequency(divisor),
{
    if divisor == 0 {
        return PIT_BASE_FREQ;
    }
    PIT_BASE_FREQ / (divisor as u32)
}

/// The bytes that program channel 0 for a frequency: the command byte,
/// then the divisor's low and high byte.
pub fn programming_bytes(frequency: u32) -> (r: [u8; 3])
    ensures
        r@ == seq![PIT_COMMAND_BYTE, (spec_divisor(frequency) % 256) as u8, (spec_divisor(frequency) / 256) as u8],
{
    let divisor = calculate_divisor(frequency);
    let lo = (divisor & 0xFF) as u8;
    let hi = ((divisor >> 8) & 0xFF) as u8;
    assert(lo == divisor % 256 && hi == divisor / 256) by (bit_vector)
        requires
            lo == (divisor & 0xFF) as u8,
            hi == ((divisor >> 8) & 0xFF) as u8,
    ;
    [PIT_COMMAND_BYTE, lo, hi]
}

/// The counter value from its low and high byte.
pub fn counter_from_bytes(low: u8, high: u8) -> (r: u16)
    ensures
        r == high * 256 + low,
{
    let r = ((high as u16) << 8) | (low as u16);
    assert(r == high * 256 + low) by (bit_vector)
        requires
            r == ((high as u16) << 8) | (low as u16),
    ;
    r
}

/// For a frequency the timer can reach without clamping (at least 19 Hz,
/// at most the base frequency), the frequency actually produced is never
/// below the one asked for, and the excess times the divisor stays below
/// the frequency asked for.
pub proof fn lemma_divisor_round_trip(frequency: u32)
    requires
        19 <= frequency <= PIT_BASE_FREQ,
    ensures
        ({
            let d = spec_divisor(frequency);
            let actual = spec_frequency(d);
            &&& d == PIT_BASE_FREQ / frequency
            &&& frequency <= actual
            &&& (actual - frequency) * d < frequency
        }),
{
    let f = frequency as int;
    let b = PIT_BASE_FREQ as int;
    let q = b / f;
    assert(q * f <= b < (q + 1) * f) by (nonlinear_arith)
        requires
            f > 0,
            q == b / f,
    ;
    assert(1 <= q <= 0xFFFF) by (nonlinear_arith)
        requires
            19 <= f <= b,
            b == 1193182,
            q * f <= b < (q + 1) * f,
    ;
    let a = b / q;
    assert(a * q <= b < (a + 1) * q) by (nonlinear_arith)
        requires
            q > 0,
            a == b / q,
    ;
    assert(f <= a) by (nonlinear_arith)
        requires
            q * f <= b,
            b < (a + 1) * q,
            q > 0,
    ;
    assert((a - f) * q < f) by (nonlinear_arith)
        requires
            a * q <= b,
            b < (q + 1) * f,
    ;
}

} // verus!
