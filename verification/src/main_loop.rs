use crate::manager::ScriptManager;
use crate::{opt_int, valid_ts, REMINDER_INTERVAL_MS};
use vstd::prelude::*;
use vstd::string::StringExecFns;

verus! {

/// Why the control loop's blocking wait is scheduled to end.
#[derive(Clone, Copy, PartialEq, Eq, Structural, Debug)]
pub enum WakeupReason {
    /// Some job's next run time arrives.
    RunScripts,
    /// The throttled reminder deadline arrives.
    ShowReminder,
    /// A displayed minute-resolution duration changes.
    UpdateUi,
}

impl WakeupReason {
    /// The reason as the short phrase used in wait logging.
    pub fn label(&self) -> (r: String)
        ensures
            self is RunScripts ==> r@ == "run scripts"@,
            self is ShowReminder ==> r@ == "show reminder"@,
            self is UpdateUi ==> r@ == "update ui"@,
    {
        match self {
            WakeupReason::RunScripts => String::from_str("run scripts"),
            WakeupReason::ShowReminder => String::from_str("show reminder"),
            WakeupReason::UpdateUi => String::from_str("update ui"),
        }
    }
}

/// The effective reminder deadline once the global rate limit is applied:
/// never earlier than one reminder interval after the reminder last shown.
pub open spec fn spec_throttled_reminder(
    next_reminder: Option<int>,
    last_reminder: Option<int>,
) -> Option<int> {
    match next_reminder {
        Some(next) => match last_reminder {
            Some(last) => if last + REMINDER_INTERVAL_MS > next {
                Some(last + REMINDER_INTERVAL_MS)
            } else {
                Some(next)
            },
            None => Some(next),
        },
        None => None,
    }
}

/// Applies the global notification rate limit to the raw aggregate
/// reminder deadline.
pub fn next_reminder_notification(next_reminder: Option<i64>, last_reminder: &Option<i64>) -> (r:
    Option<i64>)
    requires
        last_reminder matches Some(t) ==> valid_ts(t as int),
    ensures
        opt_int(r) == spec_throttled_reminder(opt_int(next_reminder), opt_int(*last_reminder)),
{
    match next_reminder {
        Some(next) => match last_reminder {
            Some(last) => {
                let limit = *last + REMINDER_INTERVAL_MS;
                if limit > next {
                    Some(limit)
                } else {
                    Some(next)
                }
            },
            None => Some(next),
        },
        None => None,
    }
}

/// Whether a reminder notification is shown now: the effective deadline
/// has arrived, and no reminder was shown within the last interval.
pub open spec fn spec_should_show(now: int, effective: Option<int>, last: Option<int>) -> bool {
    &&& match effective {
        Some(ts) => ts <= now,
        None => false,
    }
    &&& match last {
        Some(ts) => ts <= now - REMINDER_INTERVAL_MS,
        None => true,
    }
}

/// One reminder check as the loop performs it: the raw deadline is
/// throttled against the last reminder shown, and showing records `now`.
pub open spec fn spec_throttle_step(now: int, raw: Option<int>, last: Option<int>) -> (bool,
    Option<int>) {
    let shown = spec_should_show(now, spec_throttled_reminder(raw, last), last);
    (shown, if shown {
        Some(now)
    } else {
        last
    })
}

/// The "last reminder shown" value after a sequence of reminder checks,
/// each given as (time of the check, raw reminder deadline).
pub open spec fn spec_throttle_last(checks: Seq<(int, Option<int>)>, last0: Option<int>) -> Option<
    int,
>
    decreases checks.len(),
{
    if checks.len() == 0 {
        last0
    } else {
        let prev = spec_throttle_last(checks.drop_last(), last0);
        spec_throttle_step(checks.last().0, checks.last().1, prev).1
    }
}

/// Whether the check at position `i` of the sequence shows a reminder.
pub open spec fn spec_shows_at(checks: Seq<(int, Option<int>)>, last0: Option<int>, i: int) -> bool {
    spec_throttle_step(checks[i].0, checks[i].1, spec_throttle_last(checks.take(i), last0)).0
}

/// The check times never decrease: checks happen in time order.
pub open spec fn spec_checks_ordered(checks: Seq<(int, Option<int>)>) -> bool {
    forall|k: int, l: int| 0 <= k <= l < checks.len() ==> checks[k].0 <= checks[l].0
}

/// After a check that showed a reminder, the recorded "last shown" time is
/// the time of some later-or-equal check that showed.
proof fn lemma_throttle_last_witness(checks: Seq<(int, Option<int>)>, i: int, m: int)
    requires
        spec_checks_ordered(checks),
        0 <= i < m <= checks.len(),
        spec_shows_at(checks, None, i),
    ensures
        exists|k: int|
            i <= k < m && spec_throttle_last(checks.take(m), None) == Some(checks[k].0),
    decreases m - i,
{
    assert(checks.take(m).drop_last() =~= checks.take(m - 1));
    if m == i + 1 {
        assert(spec_throttle_last(checks.take(m), None) == Some(checks[i].0));
    } else {
        lemma_throttle_last_witness(checks, i, m - 1);
        let prev = spec_throttle_last(checks.take(m - 1), None);
        if spec_throttle_step(checks[m - 1].0, checks[m - 1].1, prev).0 {
            assert(spec_throttle_last(checks.take(m), None) == Some(checks[m - 1].0));
        }
    }
}

/// Reminder rate limit: over any time-ordered sequence of reminder checks
/// that starts with no reminder shown yet, two checks that both show a
/// reminder are never less than one reminder interval apart.
pub proof fn lemma_reminder_throttle_spacing(checks: Seq<(int, Option<int>)>, i: int, j: int)
    requires
        spec_checks_ordered(checks),
        0 <= i < j < checks.len(),
        spec_shows_at(checks, None, i),
        spec_shows_at(checks, None, j),
    ensures
        checks[j].0 - checks[i].0 >= REMINDER_INTERVAL_MS,
{
    lemma_throttle_last_witness(checks, i, j);
    let k = choose|k: int|
        i <= k < j && spec_throttle_last(checks.take(j), None) == Some(checks[k].0);
    assert(checks[k].0 <= checks[j].0 - REMINDER_INTERVAL_MS);
    assert(checks[i].0 <= checks[k].0);
}

/// The earliest of the three deadlines, tagged with its reason; a later
/// category replaces the current best only when strictly earlier, so on a
/// tie the run deadline wins over the reminder, which wins over the UI
/// refresh.
pub open spec fn spec_next_wakeup(
    next_backup: Option<int>,
    reminder: Option<int>,
    ui: Option<int>,
) -> Option<(int, WakeupReason)> {
    let w1 = match next_backup {
        Some(t) => Some((t, WakeupReason::RunScripts)),
        None => None,
    };
    let w2 = match reminder {
        Some(t) => match w1 {
            Some((t1, _)) => if t1 > t {
                Some((t, WakeupReason::ShowReminder))
            } else {
                w1
            },
            None => Some((t, WakeupReason::ShowReminder)),
        },
        None => w1,
    };
    match ui {
        Some(t) => match w2 {
            Some((t2, _)) => if t2 > t {
                Some((t, WakeupReason::UpdateUi))
            } else {
                w2
            },
            None => Some((t, WakeupReason::UpdateUi)),
        },
        None => w2,
    }
}

/// An optional deadline-with-reason, widened to mathematical integers.
pub open spec fn opt_wakeup_int(o: Option<(i64, WakeupReason)>) -> Option<(int, WakeupReason)> {
    match o {
        Some((t, r)) => Some((t as int, r)),
        None => None,
    }
}

/// Picks the single earliest pending deadline and the reason to wake for
/// it.
pub fn next_wakeup(
    next_backup: Option<i64>,
    next_reminder_notification: Option<i64>,
    next_ui_update: Option<i64>,
) -> (r: Option<(i64, WakeupReason)>)
    ensures
        opt_wakeup_int(r) == spec_next_wakeup(
            opt_int(next_backup),
            opt_int(next_reminder_notification),
            opt_int(next_ui_update),
        ),
{
    let mut best: Option<(i64, WakeupReason)> = match next_backup {
        Some(t) => Some((t, WakeupReason::RunScripts)),
        None => None,
    };

    if let Some(t) = next_reminder_notification {
        let replace = match &best {
            Some((t1, _)) => *t1 > t,
            None => true,
        };
        if replace {
            best = Some((t, WakeupReason::ShowReminder));
        }
    }

    if let Some(t) = next_ui_update {
        let replace = match &best {
            Some((t2, _)) => *t2 > t,
            None => true,
        };
        if replace {
            best = Some((t, WakeupReason::UpdateUi));
        }
    }

    best
}

/// Tie-break: when the next run and the throttled reminder fall due at the
/// same instant (and no UI refresh is due earlier), the loop wakes to run
/// scripts, not to show the reminder.
pub proof fn lemma_wakeup_tie_break(t: int, ui: Option<int>)
    requires
        ui matches Some(u) ==> u >= t,
    ensures
        spec_next_wakeup(Some(t), Some(t), ui) == Some((t, WakeupReason::RunScripts)),
{
}

/// On a timer wakeup without any external event, scripts run exactly when
/// the wakeup was for running them, or when no wakeup was scheduled at all.
pub open spec fn spec_run_on_timeout(wakeup: Option<(i64, WakeupReason)>) -> bool {
    match wakeup {
        Some((_, reason)) => reason is RunScripts,
        None => true,
    }
}

/// Whether a timer expiry (no external event) should trigger a run of all
/// due scripts.
pub fn should_run_on_timeout(wakeup: &Option<(i64, WakeupReason)>) -> (r: bool)
    ensures
        r == spec_run_on_timeout(*wakeup),
{
    match wakeup {
        Some((_, reason)) => matches!(reason, WakeupReason::RunScripts),
        None => true,
    }
}

/// How long the loop may block before the given deadline: the time still
/// to go, or nothing when the deadline has already passed.
pub fn wakeup_timeout_ms(now: i64, deadline: i64) -> (r: u64)
    requires
        0 <= now,
    ensures
        r == if deadline >= now {
            (deadline - now) as int
        } else {
            0
        },
{
    if deadline >= now {
        (deadline - now) as u64
    } else {
        0
    }
}


/// How the tray entry presents itself.
#[derive(Clone, Copy, PartialEq, Eq, Structural, Debug)]
pub enum TrayStatus {
    /// Nothing needs the user's eye.
    Passive,
    /// A backup is running.
    Active,
    /// A reminder deadline has passed.
    NeedsAttention,
}

/// A partial update for the tray entry: only the fields that are set
/// change.
#[derive(Debug)]
pub struct TrayData {
    /// The status to show, if it changes.
    pub status: Option<TrayStatus>,
    /// The tooltip text, if it changes.
    pub tooltip: Option<String>,
    /// The (job name, icon) pairs of the manual-run menu, if they change.
    pub scripts: Option<Vec<(String, Option<String>)>>,
}

/// One pass of the loop head: renders the tray update, decides whether a
/// reminder notification is shown now (recording it when it is), and
/// selects the single earliest deadline to wake for.
pub fn analyze(manager: &ScriptManager, now: i64, last_reminder: &mut Option<i64>) -> (r: (
    TrayData,
    bool,
    Option<(i64, WakeupReason)>,
))
    requires
        manager.wf(),
        valid_ts(now as int),
        *old(last_reminder) matches Some(t) ==> valid_ts(t as int),
    ensures
        ({
            let nb = manager.spec_agg_next_backup(now as int);
            let nr = manager.spec_agg_next_reminder(now as int);
            let nui = manager.spec_agg_next_ui_update(now as int);
            let nrn = spec_throttled_reminder(nr, opt_int(*old(last_reminder)));
            let show = spec_should_show(now as int, nrn, opt_int(*old(last_reminder)));
            &&& r.1 == show
            &&& *final(last_reminder) == if show {
                Some(now)
            } else {
                *old(last_reminder)
            }
            &&& opt_wakeup_int(r.2) == spec_next_wakeup(nb, nrn, nui)
            &&& r.0.status == Some(
                match nr {
                    Some(t) => if t <= now {
                        TrayStatus::NeedsAttention
                    } else {
                        TrayStatus::Passive
                    },
                    None => TrayStatus::Passive,
                },
            )
            &&& (r.0.tooltip matches Some(tt) && tt@ == manager.spec_tooltip(now as int))
            &&& (r.0.scripts matches Some(ss) && ss@.len() == manager.settings.scripts@.len()
                && forall|i: int|
                0 <= i < ss@.len() ==> (#[trigger] ss@[i]).0@ == manager.settings.scripts@[i].name@
                    && ((ss@[i].1 is Some) == (manager.settings.scripts@[i].icon_name is Some)) && (
                ss@[i].1 matches Some(icon) ==> icon@
                    == manager.settings.scripts@[i].icon_name->0@))
        }),
{
    let next_backup = manager.next_backup(now);
    let next_reminder = manager.next_reminder(now);
    let next_ui_update = manager.next_ui_update(now);

    let reminder_notification = next_reminder_notification(next_reminder, last_reminder);
    let wakeup = next_wakeup(next_backup, reminder_notification, next_ui_update);

    let due = match reminder_notification {
        Some(ts) => ts <= now,
        None => false,
    };
    let throttled = match last_reminder {
        Some(ts) => *ts > now - REMINDER_INTERVAL_MS,
        None => false,
    };
    let show_reminder = due && !throttled;
    if show_reminder {
        *last_reminder = Some(now);
    }

    let status = match next_reminder {
        Some(ts) => if ts <= now {
            TrayStatus::NeedsAttention
        } else {
            TrayStatus::Passive
        },
        None => TrayStatus::Passive,
    };

    let tooltip = manager.tooltip(now);

    let mut menu: Vec<(String, Option<String>)> = Vec::new();
    let n = manager.settings.scripts.len();
    for i in 0..n
        invariant
            n == manager.settings.scripts@.len(),
            menu@.len() == i,
            forall|k: int|
                0 <= k < i ==> (#[trigger] menu@[k]).0@ == manager.settings.scripts@[k].name@ && ((
                menu@[k].1 is Some) == (manager.settings.scripts@[k].icon_name is Some)) && (
                menu@[k].1 matches Some(icon) ==> icon@
                    == manager.settings.scripts@[k].icon_name->0@),
    {
        let script = &manager.settings.scripts[i];
        let icon = match &script.icon_name {
            Some(s) => Some(s.clone()),
            None => None,
        };
        menu.push((script.name.clone(), icon));
    }

    (
        TrayData { status: Some(status), tooltip: Some(tooltip), scripts: Some(menu) },
        show_reminder,
        wakeup,
    )
}

} // verus!
