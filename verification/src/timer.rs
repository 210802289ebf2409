use vstd::prelude::*;

use crate::calculations::Ratio;
use crate::{AppError, AppResult};

verus! {

/// Microseconds in a minute.
pub const MICROS_PER_MINUTE: u64 = 60_000_000;

/// The minutes between two readings of the clock, both in microseconds.
pub open spec fn elapsed_minutes(start_time: int, now: int) -> Ratio {
    Ratio { numerator: (now - start_time) as u128, denominator: MICROS_PER_MINUTE }
}

/// Get the time elapsed since the initial keypress, in minutes.
///
/// `start_time` is the reading of the clock when the user started typing the
/// sample text, `now` the current reading, both in microseconds. A clock that
/// went backward is an error, and is never taken for no time at all.
pub fn get_elapsed_minutes_since_first_keypress(start_time: u64, now: u64) -> (elapsed: AppResult<
    Ratio,
>)
    ensures
        now >= start_time ==> elapsed == Ok::<Ratio, AppError>(
            elapsed_minutes(start_time as int, now as int),
        ),
        now < start_time ==> elapsed == Err::<Ratio, AppError>(
            AppError::TimeError((start_time - now) as u64),
        ),
{
    if now < start_time {
        Err(AppError::TimeError(start_time - now))
    } else {
        Ok(Ratio { numerator: (now - start_time) as u128, denominator: MICROS_PER_MINUTE })
    }
}

} // verus!
