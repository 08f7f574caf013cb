//! Deadlines: when a party's drawing is due and how long a timer has to wait.
//!
//! Nothing is remembered about a timer but the party's deadline, which the
//! store holds. After a restart every open party gets its timer back from
//! there, and a deadline that passed in the meantime is acted on at once.

use crate::model::Party;
use vstd::prelude::*;

verus! {

/// Nanoseconds in a second.
pub const NANOS_PER_SEC: u32 = 1_000_000_000;

/// A point in time: whole seconds since the epoch and the nanoseconds past
/// them.
#[derive(Debug, Clone, Copy, PartialEq, Eq, Structural)]
pub struct Moment {
    /// Seconds since the epoch.
    pub secs: i64,
    /// Nanoseconds past the second.
    pub nanos: u32,
}

/// A length of time: whole seconds and the nanoseconds past them.
#[derive(Debug, Clone, Copy, PartialEq, Eq, Structural)]
pub struct Window {
    /// Whole seconds.
    pub secs: u64,
    /// Nanoseconds past the last whole second.
    pub nanos: u32,
}

/// What to do about a party's drawing.
#[derive(Debug, Clone, Copy, PartialEq, Eq, Structural)]
pub enum Dispatch {
    /// The deadline has been reached: run the drawing now.
    Immediately,
    /// The deadline lies ahead: run the drawing after this long.
    After(Window),
}

/// Where a party stands between its creation and its drawing.
#[derive(Debug, Clone, Copy, PartialEq, Eq, Structural)]
pub enum Phase {
    /// Signing up is possible; the deadline lies ahead.
    Open,
    /// The deadline has been reached and the drawing is to be run.
    Due,
    /// The drawing has taken place.
    Resolved,
}

/// The text that `duration_str::parse` reads as a length of time, in seconds
/// and nanoseconds, or `None` where it reports an error.
pub uninterp spec fn parsed_duration(text: Seq<char>) -> Option<(u64, u32)>;

/// A moment in nanoseconds since the epoch.
pub open spec fn moment_nanos(moment: Moment) -> int {
    moment.secs * NANOS_PER_SEC + moment.nanos
}

/// A window in nanoseconds.
pub open spec fn window_nanos(window: Window) -> int {
    window.secs * NANOS_PER_SEC + window.nanos
}

/// The window that a text stands for.
pub open spec fn window_of(text: Seq<char>) -> Option<Window> {
    match parsed_duration(text) {
        Some((secs, nanos)) => Some(Window { secs, nanos }),
        None => None,
    }
}

/// The second in which a window that starts at `now` ends.
pub open spec fn deadline(now: Moment, window: Window) -> int {
    (moment_nanos(now) + window_nanos(window)) / (NANOS_PER_SEC as int)
}

/// The nanoseconds from `now` to the start of the second `ends_at`.
pub open spec fn delay_nanos(ends_at: i64, now: Moment) -> int {
    ends_at * NANOS_PER_SEC - moment_nanos(now)
}

/// What is to be done at `now` about a drawing due at `ends_at`.
pub open spec fn dispatch_at(ends_at: i64, now: Moment) -> Dispatch {
    let delay = delay_nanos(ends_at, now);
    if delay <= 0 {
        Dispatch::Immediately
    } else {
        Dispatch::After(
            Window {
                secs: (delay / (NANOS_PER_SEC as int)) as u64,
                nanos: (delay % (NANOS_PER_SEC as int)) as u32,
            },
        )
    }
}

/// Where a party stands at the second `now_secs`.
pub open spec fn phase_at(party: Party, now_secs: i64) -> Phase {
    if party.matches_made {
        Phase::Resolved
    } else if party.ends_at <= now_secs {
        Phase::Due
    } else {
        Phase::Open
    }
}

/// Calls `chrono::Utc::now` and takes its `timestamp` and
/// `timestamp_subsec_nanos`. Nothing is promised of the clock's reading.
#[verifier::external_body]
pub(crate) fn clock_now() -> (now: Moment) {
    let now = chrono::Utc::now();
    Moment { secs: now.timestamp(), nanos: now.timestamp_subsec_nanos() }
}

/// Calls `duration_str::parse` and splits the duration it reads into seconds
/// and nanoseconds. The crate's error message is dropped.
#[verifier::external_body]
fn parse_duration(text: &str) -> (parsed: Option<(u64, u32)>)
    ensures
        parsed == parsed_duration(text@),
{
    match duration_str::parse(text) {
        Ok(duration) => Some((duration.as_secs(), duration.subsec_nanos())),
        Err(_) => None,
    }
}

/// Reads a signup window such as `90s`, `2h` or `1d+12h`.
pub fn parse_window(text: &str) -> (window: Option<Window>)
    ensures
        window == window_of(text@),
{
    match parse_duration(text) {
        Some((secs, nanos)) => Some(Window { secs, nanos }),
        None => None,
    }
}

/// Computes the second in which a window that starts at `now` ends, or
/// nothing if that second cannot be written down.
pub fn deadline_after(now: Moment, window: Window) -> (ends_at: Option<i64>)
    ensures
        match ends_at {
            Some(secs) => secs == deadline(now, window),
            None => deadline(now, window) > i64::MAX,
        },
{
    let nanos: u64 = now.nanos as u64 + window.nanos as u64;
    let carry: u64 = nanos / (NANOS_PER_SEC as u64);
    let secs: i128 = now.secs as i128 + window.secs as i128 + carry as i128;
    assert(secs == deadline(now, window)) by {
        let total = moment_nanos(now) + window_nanos(window);
        let whole = now.secs + window.secs;
        assert(total == whole * 1_000_000_000 + nanos);
        assert((whole * 1_000_000_000 + nanos) / 1_000_000_000 == whole + nanos / 1_000_000_000)
            by (nonlinear_arith);
    }
    if secs > i64::MAX as i128 {
        None
    } else {
        Some(secs as i64)
    }
}

/// Decides what to do at `now` about a drawing due at `ends_at`: run it at
/// once if the deadline has been reached, wait for the rest of the time
/// otherwise.
pub fn delay_until(ends_at: i64, now: Moment) -> (dispatch: Dispatch)
    ensures
        dispatch == dispatch_at(ends_at, now),
{
    let due: i128 = (ends_at as i128) * 1_000_000_000;
    let reached: i128 = (now.secs as i128) * 1_000_000_000 + now.nanos as i128;
    let delay: i128 = due - reached;
    if delay <= 0 {
        Dispatch::Immediately
    } else {
        let secs: i128 = delay / 1_000_000_000;
        let nanos: i128 = delay % 1_000_000_000;
        assert(secs <= u64::MAX) by {
            assert(delay <= (ends_at - now.secs) * 1_000_000_000);
            assert(ends_at - now.secs <= u64::MAX);
            assert(delay / 1_000_000_000 <= u64::MAX) by (nonlinear_arith)
                requires
                    delay <= (ends_at - now.secs) * 1_000_000_000,
                    ends_at - now.secs <= u64::MAX,
            ;
        }
        Dispatch::After(Window { secs: secs as u64, nanos: nanos as u32 })
    }
}

/// Tells where a party stands at the second `now_secs`.
pub fn phase_of(party: &Party, now_secs: i64) -> (phase: Phase)
    ensures
        phase == phase_at(*party, now_secs),
{
    if party.matches_made {
        Phase::Resolved
    } else if party.ends_at <= now_secs {
        Phase::Due
    } else {
        Phase::Open
    }
}

} // verus!
