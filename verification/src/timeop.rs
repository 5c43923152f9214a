use vstd::prelude::*;

verus! {

/// The largest tick value; tick counters wrap around after it.
pub const MAX_U64_VAL: u64 = 0xffffffffffffffff;

/// Milliseconds left of a span of `leftmills` that started at tick `sticks`,
/// seen at tick `cticks`; `-1` when the clock is not inside the span.
///
/// The span ends at tick `sticks + leftmills`. When that end lies past the
/// last tick, the counter wraps: the span then covers the ticks from `sticks`
/// up to (not including) the last tick, and after the wrap the ticks from 1 up
/// to (not including) `sticks + leftmills - MAX_U64_VAL`, where the time left
/// is counted to that tick. Ticks 0 and `MAX_U64_VAL` are never inside such a span.
pub open spec fn spec_time_left(sticks: u64, cticks: u64, leftmills: i32) -> i32 {
    let end: int = sticks + (leftmills as u64);
    if end <= MAX_U64_VAL {
        if sticks <= cticks < end {
            (end - cticks) as i32
        } else {
            -1i32
        }
    } else if sticks <= cticks < MAX_U64_VAL {
        (end - cticks) as i32
    } else if 0 < cticks < end - MAX_U64_VAL {
        (end - MAX_U64_VAL - cticks) as i32
    } else {
        -1i32
    }
}

/// The ticks from `sticks` to `cticks`, counting across the wrap of the counter.
pub open spec fn spec_elapsed(sticks: u64, cticks: u64) -> int {
    if cticks >= sticks {
        cticks - sticks
    } else {
        cticks + 0x1_0000_0000_0000_0000 - sticks
    }
}

/// A span is never reported over early: when the time left is `-1`, at least
/// `leftmills` ticks have passed since the start (counting across the wrap),
/// and while time is left, no more than `leftmills` ticks have passed. For a
/// span that crosses the wrap this leaves out ticks 0 and `MAX_U64_VAL`, which
/// are never inside such a span; after the wrap, one tick more is reported left
/// than the plain count.
pub proof fn law_time_left_not_early(sticks: u64, cticks: u64, leftmills: i32)
    requires
        leftmills >= 0,
        sticks + leftmills > MAX_U64_VAL ==> cticks != 0 && cticks != MAX_U64_VAL,
    ensures
        spec_time_left(sticks, cticks, leftmills) == -1 ==> spec_elapsed(sticks, cticks) >= leftmills,
        spec_time_left(sticks, cticks, leftmills) != -1 ==> {
            &&& spec_elapsed(sticks, cticks) <= leftmills
            &&& spec_time_left(sticks, cticks, leftmills) == leftmills - spec_elapsed(sticks, cticks) + (if cticks
                < sticks { 1int } else { 0int })
        },
{
}

/// Milliseconds left before `leftmills` elapse from tick `sticks`, at tick `cticks`,
/// or `-1` when they have elapsed.
pub fn time_left(sticks: u64, cticks: u64, leftmills: i32) -> (r: i32)
    ensures
        r == spec_time_left(sticks, cticks, leftmills),
        leftmills >= 0 ==> (r == -1 || 1 <= r <= leftmills),
{
    let lm: u64 = leftmills as u64;
    let eticks: u64 = sticks.wrapping_add(lm);
    if cticks < eticks && cticks >= sticks {
        return (eticks - cticks) as i32;
    }
    if (MAX_U64_VAL - sticks) < lm {
        if cticks > 0 && cticks < (lm - (MAX_U64_VAL - sticks)) {
            return (lm - (MAX_U64_VAL - sticks) - cticks) as i32;
        }
        if cticks >= sticks && cticks < MAX_U64_VAL {
            return (lm - (cticks - sticks)) as i32;
        }
    }
    -1
}


/// When the span does not cross the wrap of the tick counter, the time left is
/// the distance to the end tick while the clock is inside the span, and `-1`
/// before the span starts or once it is over; right at the start it is the
/// whole span.
pub proof fn law_time_left_plain(sticks: u64, cticks: u64, leftmills: i32)
    requires
        leftmills >= 0,
        sticks + leftmills <= MAX_U64_VAL,
    ensures
        (sticks <= cticks < sticks + leftmills) ==> spec_time_left(sticks, cticks, leftmills) == sticks + leftmills - cticks,
        !(sticks <= cticks < sticks + leftmills) ==> spec_time_left(sticks, cticks, leftmills) == -1,
        spec_time_left(sticks, sticks, leftmills) == (if leftmills > 0 { leftmills } else { -1i32 }),
{
}

/// Milliseconds since an arbitrary start, from a clock reading of `tv_sec`
/// seconds and `tv_nsec` nanoseconds.
pub open spec fn spec_ticks(tv_sec: i64, tv_nsec: i64) -> int {
    (tv_sec as u64) * 1000 + ((tv_nsec as u64) % 1_000_000_000) / 1_000_000
}

/// The tick count (in milliseconds) of a monotonic clock reading.
pub fn ticks_from_timespec(tv_sec: i64, tv_nsec: i64) -> (r: u64)
    requires
        spec_ticks(tv_sec, tv_nsec) <= u64::MAX,
    ensures
        r == spec_ticks(tv_sec, tv_nsec),
{
    let mut retmills: u64 = 0;
    retmills += (tv_sec as u64) * 1000;
    retmills += ((tv_nsec as u64) % 1000000000) / 1000000;
    retmills
}

/// The `select` timeout for a wait of `mills` milliseconds, as seconds and
/// microseconds; a negative wait does not wait at all.
pub fn select_timeval(mills: i32) -> (r: (i64, i64))
    ensures
        mills < 0 ==> r == (0i64, 0i64),
        mills >= 0 ==> r.0 == mills / 1000 && r.1 == (mills % 1000) * 1000,
        mills >= 0 ==> r.0 * 1000 + r.1 / 1000 == mills && 0 <= r.1 < 1_000_000,
{
    if mills < 0 {
        (0, 0)
    } else {
        ((mills / 1000) as i64, ((mills % 1000) * 1000) as i64)
    }
}

} // verus!
