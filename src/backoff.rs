//! Adaptive back-off of idle entities and the polling cadence of a
//! subscription. Durations and clock readings are in milliseconds.
use vstd::prelude::*;

verus! {

/// Poll rate of a unit subscription when the request names none, in seconds.
pub const DEFAULT_UNIT_POLL_RATE_SECS: u32 = 5;

/// Ceiling of the back-off when the request names none, in seconds.
pub const DEFAULT_MAX_BACKOFF_SECS: u32 = 30;

/// Poll rate of a weapon subscription when the request names none, in
/// milliseconds.
pub const DEFAULT_WEAPON_POLL_RATE_MS: u32 = 1000;

/// The polling cadence of one subscription.
#[derive(Clone, Copy, Debug, PartialEq, Eq, Structural)]
pub struct Backoff {
    /// Period of the polling tick.
    pub poll_rate: u64,
    /// Ceiling of the back-off of an idle entity.
    pub max_backoff: u64,
}

impl Backoff {
    /// The ceiling is never below the poll rate.
    pub open spec fn wf(self) -> bool {
        self.poll_rate <= self.max_backoff
    }

    /// A back-off is either off or lies between the poll rate and the
    /// ceiling.
    pub open spec fn valid(self, backoff: u64) -> bool {
        backoff == 0 || (self.poll_rate <= backoff && backoff <= self.max_backoff)
    }

    /// The back-off after a poll: off after a change; the poll rate after
    /// a first idle poll; doubled, up to the ceiling, after further ones.
    pub open spec fn spec_next(self, prev: u64, changed: bool) -> u64 {
        if changed {
            0
        } else if prev == 0 {
            self.poll_rate
        } else if 2 * prev <= self.max_backoff {
            (2 * prev) as u64
        } else {
            self.max_backoff
        }
    }

    /// Cadence of a unit subscription from the requested poll rate and
    /// ceiling, in seconds, with defaults for absent values. The
    /// effective ceiling is the larger of the requested one and the
    /// effective poll rate.
    pub open spec fn spec_for_units(poll_rate: Option<u32>, max_backoff: Option<u32>) -> Backoff {
        let p = match poll_rate {
            Some(p) => p,
            None => DEFAULT_UNIT_POLL_RATE_SECS,
        };
        let m = match max_backoff {
            Some(m) => m,
            None => DEFAULT_MAX_BACKOFF_SECS,
        };
        Backoff {
            poll_rate: (p * 1000) as u64,
            max_backoff: (if m >= p { m * 1000 } else { p * 1000 }) as u64,
        }
    }

    /// Cadence of a weapon subscription from the requested poll rate in
    /// milliseconds. Weapons never back off, so the ceiling equals the
    /// poll rate.
    pub open spec fn spec_for_weapons(poll_rate: Option<u32>) -> Backoff {
        let p = match poll_rate {
            Some(p) => p,
            None => DEFAULT_WEAPON_POLL_RATE_MS,
        };
        Backoff { poll_rate: p as u64, max_backoff: p as u64 }
    }

    pub fn for_units(poll_rate: Option<u32>, max_backoff: Option<u32>) -> (r: Backoff)
        ensures
            r == Backoff::spec_for_units(poll_rate, max_backoff),
            r.wf(),
    {
        let p: u32 = match poll_rate {
            Some(p) => p,
            None => DEFAULT_UNIT_POLL_RATE_SECS,
        };
        let m: u32 = match max_backoff {
            Some(m) => m,
            None => DEFAULT_MAX_BACKOFF_SECS,
        };
        let m: u32 = if m >= p { m } else { p };
        Backoff { poll_rate: p as u64 * 1000, max_backoff: m as u64 * 1000 }
    }

    pub fn for_weapons(poll_rate: Option<u32>) -> (r: Backoff)
        ensures
            r == Backoff::spec_for_weapons(poll_rate),
            r.wf(),
    {
        let p: u32 = match poll_rate {
            Some(p) => p,
            None => DEFAULT_WEAPON_POLL_RATE_MS,
        };
        Backoff { poll_rate: p as u64, max_backoff: p as u64 }
    }

    pub fn next(&self, prev: u64, changed: bool) -> (r: u64)
        ensures
            r == self.spec_next(prev, changed),
    {
        if changed {
            0
        } else if prev == 0 {
            self.poll_rate
        } else if prev <= self.max_backoff / 2 {
            2 * prev
        } else {
            self.max_backoff
        }
    }
}

/// Milliseconds elapsed from `since` to `now`; a clock reading earlier
/// than `since` counts as no time at all.
pub open spec fn elapsed(now: u64, since: u64) -> u64 {
    if now >= since {
        (now - since) as u64
    } else {
        0
    }
}

/// An entity is due for a poll once its back-off has elapsed since it was
/// last checked.
pub open spec fn spec_due(now: u64, last_checked: u64, backoff: u64) -> bool {
    elapsed(now, last_checked) >= backoff
}

pub fn due(now: u64, last_checked: u64, backoff: u64) -> (r: bool)
    ensures
        r == spec_due(now, last_checked, backoff),
{
    let e: u64 = if now >= last_checked { now - last_checked } else { 0 };
    e >= backoff
}

/// Every poll keeps the back-off of a tracker either off or between the
/// poll rate and the ceiling.
pub proof fn lemma_next_stays_valid(b: Backoff, prev: u64, changed: bool)
    requires
        b.wf(),
        b.valid(prev),
    ensures
        b.valid(b.spec_next(prev, changed)),
{
}

/// The effective ceiling of a unit subscription is the larger of the
/// requested ceiling and the effective poll rate.
pub proof fn lemma_effective_ceiling(poll_rate: Option<u32>, max_backoff: Option<u32>)
    ensures
        ({
            let b = Backoff::spec_for_units(poll_rate, max_backoff);
            let p = match poll_rate {
                Some(p) => p as int,
                None => 5,
            };
            let m = match max_backoff {
                Some(m) => m as int,
                None => 30,
            };
            &&& b.poll_rate == p * 1000
            &&& b.max_backoff == (if m >= p { m } else { p }) * 1000
        }),
{
}

/// A requested ceiling below the poll rate is raised to the poll rate.
pub proof fn lemma_low_ceiling_raised(poll_rate: Option<u32>, max_backoff: u32)
    requires
        (max_backoff as int) < match poll_rate {
            Some(p) => p as int,
            None => 5,
        },
    ensures
        Backoff::spec_for_units(poll_rate, Some(max_backoff)).max_backoff == Backoff::spec_for_units(
            poll_rate,
            Some(max_backoff),
        ).poll_rate,
{
}

/// Without a requested poll rate, units are polled every 5 s and weapons
/// every 1000 ms.
pub proof fn lemma_default_poll_rates(max_backoff: Option<u32>)
    ensures
        Backoff::spec_for_units(None, max_backoff).poll_rate == 5000,
        Backoff::spec_for_weapons(None).poll_rate == 1000,
{
}

/// Repeated idle polls grow the back-off monotonically and reach the
/// ceiling: off, then the poll rate, then doubling until clamped.
pub proof fn lemma_idle_growth(b: Backoff, prev: u64)
    requires
        b.wf(),
        b.valid(prev),
    ensures
        b.spec_next(prev, false) >= prev,
        b.spec_next(prev, false) <= b.max_backoff,
        prev == b.max_backoff ==> b.spec_next(prev, false) == b.max_backoff,
        prev == 0 ==> b.spec_next(prev, false) == b.poll_rate,
        prev > 0 && 2 * prev <= b.max_backoff ==> b.spec_next(prev, false) == 2 * prev,
{
}

} // verus!
