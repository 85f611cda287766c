use vstd::prelude::*;

verus! {

/// The shortest interval, in seconds, between automatic refreshes.
pub const MIN_WATCH_SECONDS: u64 = 5;

/// The interval, in seconds, used when none is given.
pub const DEFAULT_WATCH_SECONDS: u64 = 30;

/// The seconds between automatic refreshes, from `--watch` (absent, given
/// without a value, or given a value) and `--fetch`: a value below the
/// minimum is raised to it, `--watch` alone takes the default, and `--fetch`
/// alone turns watching on with the default. `None` is no watching.
pub fn watch_interval(watch: Option<Option<u64>>, fetch: bool) -> (r: Option<u64>)
    ensures
        r == match watch {
            Some(Some(s)) => Some(if s < MIN_WATCH_SECONDS { MIN_WATCH_SECONDS } else { s }),
            Some(None) => Some(DEFAULT_WATCH_SECONDS),
            None => if fetch {
                Some(DEFAULT_WATCH_SECONDS)
            } else {
                None
            },
        },
{
    match watch {
        Some(Some(s)) => {
            if s < MIN_WATCH_SECONDS {
                Some(MIN_WATCH_SECONDS)
            } else {
                Some(s)
            }
        },
        Some(None) => Some(DEFAULT_WATCH_SECONDS),
        None => {
            if fetch {
                Some(DEFAULT_WATCH_SECONDS)
            } else {
                None
            }
        },
    }
}

/// What a watching view does when time passes.
#[derive(Debug, Clone, Copy, PartialEq, Eq, Structural)]
pub enum WatchTick {
    /// The interval has not run out yet.
    Wait,
    /// The interval ran out while a search query is being typed: the tick is
    /// dropped and the interval starts again.
    Skip,
    /// The interval ran out: reload the repository (fetching first when
    /// asked) and start the interval again.
    Refresh,
}

/// The step of the watch timer after `elapsed` seconds of an `interval`,
/// with `searching` telling whether a search query is being typed.
pub fn watch_tick(elapsed: u64, interval: u64, searching: bool) -> (t: WatchTick)
    ensures
        t == if elapsed < interval {
            WatchTick::Wait
        } else if searching {
            WatchTick::Skip
        } else {
            WatchTick::Refresh
        },
{
    if elapsed < interval {
        WatchTick::Wait
    } else if searching {
        WatchTick::Skip
    } else {
        WatchTick::Refresh
    }
}

} // verus!
