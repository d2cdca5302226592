//! The simulator's synthetic fleet: the online-device count takes a bounded
//! random step each tick and stays within the fleet's plausible range. (The
//! message-rate walk is floating point and stays with the caller.)
use vstd::prelude::*;

verus! {

/// Fewest devices the simulator shows online.
pub const ONLINE_MIN: i64 = 120;

/// Most devices the simulator shows online.
pub const ONLINE_MAX: i64 = 134;

/// Devices shown online when the simulator starts.
pub const ONLINE_START: i64 = 128;

/// The online count moved by `step` and held within `ONLINE_MIN..=ONLINE_MAX`.
pub open spec fn stepped(online: int, step: int) -> int {
    if online + step < ONLINE_MIN {
        ONLINE_MIN as int
    } else if online + step > ONLINE_MAX {
        ONLINE_MAX as int
    } else {
        online + step
    }
}

/// The online count after the ticks that move it by `steps`, in order.
pub open spec fn online_after(start: int, steps: Seq<int>) -> int
    decreases steps.len(),
{
    if steps.len() == 0 {
        start
    } else {
        stepped(online_after(start, steps.drop_last()), steps.last())
    }
}

/// The online count after a tick that moves it by `step` (the simulator
/// draws it from `-2..=2`), held within `ONLINE_MIN..=ONLINE_MAX`.
pub fn next_online(online: i64, step: i64) -> (r: i64)
    requires
        i64::MIN <= online + step <= i64::MAX,
    ensures
        r == stepped(online as int, step as int),
        ONLINE_MIN <= r <= ONLINE_MAX,
{
    let moved = online + step;
    if moved < ONLINE_MIN {
        ONLINE_MIN
    } else if moved > ONLINE_MAX {
        ONLINE_MAX
    } else {
        moved
    }
}

/// However the simulator steps, the online count it shows stays within
/// `ONLINE_MIN..=ONLINE_MAX` for the whole run once it starts in that range
/// (as it does, at `ONLINE_START`), and is back in it after any first tick.
pub proof fn online_stays_in_range(start: int, steps: Seq<int>)
    requires
        ONLINE_MIN <= start <= ONLINE_MAX || steps.len() > 0,
    ensures
        ONLINE_MIN <= online_after(start, steps) <= ONLINE_MAX,
    decreases steps.len(),
{
    if steps.len() > 1 {
        online_stays_in_range(start, steps.drop_last());
    }
}

} // verus!
