//! Tick scheduling against an absolute deadline. Times are nanoseconds on
//! a clock that does not run backwards.

use vstd::prelude::*;

verus! {

/// The deadline one interval after `deadline`, held at the end of the
/// clock's range.
pub open spec fn due_after(deadline: u64, interval: u64) -> u64 {
    if deadline + interval > u64::MAX {
        u64::MAX
    } else {
        (deadline + interval) as u64
    }
}

/// The deadline of the next tick, given the last deadline and the time at
/// which the work of the tick ended: one interval after the last
/// deadline, or now where that has passed.
pub open spec fn next_deadline(deadline: u64, interval: u64, now: u64) -> u64 {
    if due_after(deadline, interval) > now {
        due_after(deadline, interval)
    } else {
        now
    }
}

/// How long to sleep before the next tick: until its deadline, and not at
/// all where the deadline has passed.
pub open spec fn sleep_for(deadline: u64, interval: u64, now: u64) -> u64 {
    if due_after(deadline, interval) > now {
        (due_after(deadline, interval) - now) as u64
    } else {
        0
    }
}

/// Moves the deadline on by one tick and says how long to sleep.
pub fn pace(deadline: &mut u64, interval: u64, now: u64) -> (wait: u64)
    ensures
        *final(deadline) == next_deadline(*old(deadline), interval, now),
        wait == sleep_for(*old(deadline), interval, now),
{
    let due = match deadline.checked_add(interval) {
        Some(d) => d,
        None => u64::MAX,
    };
    if due > now {
        *deadline = due;
        due - now
    } else {
        *deadline = now;
        0
    }
}

/// The next tick begins exactly at its deadline, and never before the
/// time at which the last one's work ended: no lateness is carried over.
pub proof fn lemma_tick_begins_at_deadline(deadline: u64, interval: u64, now: u64)
    ensures
        now + sleep_for(deadline, interval, now) == next_deadline(deadline, interval, now),
        next_deadline(deadline, interval, now) >= now,
{
}

/// One tick fires per overrun. Where the work of a tick ends at `end`,
/// at or after the deadline that was due, however many intervals late:
/// the next tick begins at `end` without sleep and the deadline becomes
/// `end`; and the tick after that one begins no earlier than one
/// interval after `end` (or the end of the clock's range, where that
/// comes first), whenever its own work ends.
pub proof fn lemma_one_tick_per_overrun(deadline: u64, interval: u64, end: u64, later: u64)
    requires
        due_after(deadline, interval) <= end,
    ensures
        sleep_for(deadline, interval, end) == 0,
        next_deadline(deadline, interval, end) == end,
        next_deadline(end, interval, later) >= due_after(end, interval),
        later + sleep_for(end, interval, later) == next_deadline(end, interval, later),
        end + interval <= u64::MAX ==> next_deadline(end, interval, later) >= end + interval,
{
}

/// Two ticks in a row never begin less than one interval apart, however
/// late the work between them ended: ticks are never fired in a burst to
/// catch up. Only the end of the clock's range cuts the distance short.
pub proof fn lemma_ticks_spaced(deadline: u64, interval: u64, first: u64, second: u64)
    ensures
        ({
            let begun = next_deadline(deadline, interval, first);
            &&& next_deadline(begun, interval, second) >= due_after(begun, interval)
            &&& begun + interval <= u64::MAX ==> next_deadline(begun, interval, second) >= begun
                + interval
        }),
{
}

} // verus!
