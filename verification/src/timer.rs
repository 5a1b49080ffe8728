//! The statistics polling timer.  The timer itself is a kernel object driven
//! through the `timerfd` crate; the library arms, disarms and drains it
//! through the trusted items below and keeps no further state about it.

use vstd::prelude::*;
use timerfd::TimerFd;
use timerfd::ClockId;
use timerfd::TimerState;
use timerfd::SetTimeFlags;

verus! {

#[verifier::external_type_specification]
#[verifier::external_body]
pub struct ExTimerFd(TimerFd);

/// Relies on timerfd::TimerFd::new_custom: creates a nonblocking monotonic
/// timer, initially disarmed.  On failure the raw OS error code is handed
/// back (-1 when the kernel gave none).
#[verifier::external_body]
pub fn timer_create() -> (r: Result<TimerFd, i32>) {
    match TimerFd::new_custom(ClockId::Monotonic, true, true) {
        Ok(t) => Ok(t),
        Err(e) => Err(e.raw_os_error().unwrap_or(-1)),
    }
}

/// Relies on timerfd::TimerFd::set_state: arms the timer to fire every
/// `interval_s` seconds, starting `interval_s` seconds from now; an interval
/// of zero disarms it.  The crate's conversion to a kernel timespec panics
/// when the seconds exceed i64::MAX, so such inputs are excluded; with the
/// seconds in range, `timerfd_settime` cannot fail on this owned timer.
#[verifier::external_body]
pub fn timer_arm_periodic(timer: &mut TimerFd, interval_s: u64)
    requires
        interval_s <= i64::MAX as u64,
{
    let d = std::time::Duration::from_secs(interval_s);
    timer.set_state(TimerState::Periodic { current: d, interval: d }, SetTimeFlags::Default);
}

/// Relies on timerfd::TimerFd::read: returns the number of expirations since
/// the last read, 0 when none is pending (the timer is nonblocking).
#[verifier::external_body]
pub fn timer_consume(timer: &TimerFd) -> (r: u64) {
    timer.read()
}

} // verus!
