use crate::round_duration::{
    lemma_round_bounds, round_duration, spec_round_remainder, RoundAccuracy, RoundDirection,
};
use crate::settings::Script;
use crate::{valid_ts, RETRY_INTERVAL_MS};
use vstd::prelude::*;

verus! {

/// Where a job stands in its run cycle.
#[derive(Debug)]
pub enum ScriptState {
    /// Eligible to run once its schedule time arrives.
    WaitingForTime,
    /// Blocked until none of the recorded paths is missing any more.
    WaitingForPaths(Vec<String>),
    /// A run is in progress; excluded from every schedule.
    Running,
    /// The last attempt failed at the given time with the given message;
    /// drives a fixed-interval retry.
    Failed(i64, String),
}

impl ScriptState {
    /// Any timestamp the state carries is in range for schedule arithmetic.
    pub open spec fn wf(self) -> bool {
        match self {
            ScriptState::Failed(ts, _) => valid_ts(ts as int),
            _ => true,
        }
    }
}

/// When the job next wants to run, ignoring its state: its last run plus
/// its interval, or right now if it never ran.
pub open spec fn spec_next_backup(now: int, script: Script) -> int {
    match script.last_backup {
        Some(t) => t + script.interval,
        None => now,
    }
}

/// When the job next wants to run, ignoring its state.
pub fn next_backup(now: i64, script: &Script) -> (r: i64)
    requires
        valid_ts(now as int),
        script.wf(),
    ensures
        r == spec_next_backup(now as int, *script),
{
    match script.last_backup {
        Some(t) => t + script.interval,
        None => now,
    }
}

/// When the job next wants to nag, if it has a reminder configured: its
/// last run plus the reminder interval, or right now if it never ran.
pub open spec fn spec_next_reminder(now: int, script: Script) -> Option<int> {
    match script.reminder {
        Some(rem) => match script.last_backup {
            Some(t) => Some(t + rem),
            None => Some(now),
        },
        None => None,
    }
}

/// When the job next wants to nag, if it has a reminder configured.
pub fn next_reminder(now: i64, script: &Script) -> (r: Option<i64>)
    requires
        valid_ts(now as int),
        script.wf(),
    ensures
        r is Some <==> spec_next_reminder(now as int, *script) is Some,
        r matches Some(t) ==> spec_next_reminder(now as int, *script) == Some(t as int),
{
    match script.reminder {
        Some(rem) => match script.last_backup {
            Some(t) => Some(t + rem),
            None => Some(now),
        },
        None => None,
    }
}

/// The next moment the minute-resolution durations shown for this job
/// change: the smaller of the remainders of (time until the next run,
/// rounded down) and (time since the last run, rounded up), added back to
/// `now`, plus a one-millisecond nudge for strict forward progress.
pub open spec fn spec_next_ui_update(now: int, script: Script) -> int {
    let nb = spec_next_backup(now, script);
    let until_next = if nb >= now { nb - now } else { 0 };
    let nb_rem = spec_round_remainder(until_next, RoundAccuracy::Minutes, RoundDirection::Down);
    let rem = match script.last_backup {
        Some(lb) => {
            let since_last = if lb <= now { now - lb } else { 0 };
            let lb_rem = spec_round_remainder(
                since_last,
                RoundAccuracy::Minutes,
                RoundDirection::Up,
            );
            if lb_rem <= nb_rem { lb_rem } else { nb_rem }
        },
        None => nb_rem,
    };
    now + rem + 1
}

/// The next moment the minute-resolution durations shown for this job
/// change.
pub fn next_ui_update(now: i64, script: &Script) -> (r: i64)
    requires
        valid_ts(now as int),
        script.wf(),
    ensures
        r == spec_next_ui_update(now as int, *script),
{
    let nb = next_backup(now, script);
    let until_next = if nb >= now {
        nb - now
    } else {
        0
    };
    let (_, nb_rem) = round_duration(until_next, RoundAccuracy::Minutes, RoundDirection::Down);
    proof {
        lemma_round_bounds(until_next as int, RoundAccuracy::Minutes, RoundDirection::Down);
    }

    let rem = match script.last_backup {
        Some(lb) => {
            let since_last = if lb <= now {
                now - lb
            } else {
                0
            };
            let (_, lb_rem) = round_duration(
                since_last,
                RoundAccuracy::Minutes,
                RoundDirection::Up,
            );
            proof {
                lemma_round_bounds(since_last as int, RoundAccuracy::Minutes, RoundDirection::Up);
            }
            if lb_rem <= nb_rem {
                lb_rem
            } else {
                nb_rem
            }
        },
        None => nb_rem,
    };

    now + rem + 1
}

/// A job that never ran and is waiting for its time is due immediately:
/// its next run time is `now` itself, whatever its interval.
pub proof fn lemma_next_backup_never_backed_up(now: int, script: Script)
    requires
        script.last_backup is None,
    ensures
        spec_next_backup(now, script) == now,
        spec_backup_candidate(now, script, ScriptState::WaitingForTime) == Some(now),
{
}

/// A failed job retries a fixed hour after the failure, whatever its
/// configured interval: the candidate depends only on the failure time.
pub proof fn lemma_next_backup_after_failure(now: int, script: Script, at: i64, message: String)
    ensures
        spec_backup_candidate(now, script, ScriptState::Failed(at, message))
            == Some(at + RETRY_INTERVAL_MS as int),
{
}

/// The job's contribution to the process-wide next-run time, given its
/// effective state: its schedule time when waiting, a fixed retry delay
/// after a failure, nothing while blocked on paths or already running.
pub open spec fn spec_backup_candidate(now: int, script: Script, st: ScriptState) -> Option<int> {
    match st {
        ScriptState::WaitingForTime => Some(spec_next_backup(now, script)),
        ScriptState::Failed(ts, _) => Some(ts + RETRY_INTERVAL_MS),
        _ => None,
    }
}

/// The job's contribution to the process-wide next-reminder time: its
/// reminder time unless a run is in progress.
pub open spec fn spec_reminder_candidate(now: int, script: Script, st: ScriptState) -> Option<
    int,
> {
    if st is Running {
        None
    } else {
        spec_next_reminder(now, script)
    }
}

/// The job's contribution to the process-wide next-UI-refresh time: only
/// jobs waiting for their schedule time are counted.
pub open spec fn spec_ui_candidate(now: int, script: Script, st: ScriptState) -> Option<int> {
    if st is WaitingForTime {
        Some(spec_next_ui_update(now, script))
    } else {
        None
    }
}

} // verus!
