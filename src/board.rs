//! Board-level decisions of the main loop: LED brightness and the once-a-second
//! statistics window.

use vstd::prelude::*;

verus! {

/// Length of the statistics window, in milliseconds.
pub const PERF_WINDOW_MS: u32 = 1000;

/// The PWM duty that gives `level` (0 to 255) on a timer whose full duty is
/// `max_duty`.
pub fn pwm_duty(max_duty: u16, level: u8) -> (r: u16)
    ensures
        r == (max_duty / 255) * level,
{
    let step = max_duty / 255;
    assert(step * level <= 257 * 255) by (nonlinear_arith)
        requires
            step <= 257,
            level <= 255,
    ;
    step * (level as u16)
}

/// The level to drive each LED channel with for colour `rgb`: the LEDs are
/// active low, so full colour is zero duty.
pub fn led_levels(rgb: (u8, u8, u8)) -> (r: (u8, u8, u8))
    ensures
        r == ((255 - rgb.0) as u8, (255 - rgb.1) as u8, (255 - rgb.2) as u8),
{
    (255 - rgb.0, 255 - rgb.1, 255 - rgb.2)
}

/// Whether a statistics window has passed between `lastlooptime` and
/// `looptime` (milliseconds; a clock that went back counts as no time).
pub fn perf_window_elapsed(looptime: u32, lastlooptime: u32) -> (r: bool)
    ensures
        r == (looptime >= lastlooptime && looptime - lastlooptime >= PERF_WINDOW_MS),
{
    looptime.saturating_sub(lastlooptime) >= PERF_WINDOW_MS
}

} // verus!
