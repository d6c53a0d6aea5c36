use crate::manager::ScriptManager;
use crate::round_duration::{
    lemma_round_bounds, round_duration, spec_rounded, RoundAccuracy, RoundDirection,
};
use crate::schedule::{next_backup, spec_next_backup, ScriptState};
use crate::settings::Script;
use crate::valid_ts;
use vstd::prelude::*;
use vstd::string::StrSliceExecFns;
use vstd::string::StringExecFns;

verus! {

/// The text `humantime` renders for a duration of the given milliseconds:
/// years, months, days, hours, minutes, seconds and milliseconds spelled
/// out, largest unit first, zero-valued units left out.
pub uninterp spec fn human_duration_of(ms: int) -> Seq<char>;

/// Relies on humantime::format_duration: the rendering depends on the
/// duration value alone.
#[verifier::external_body]
pub(crate) fn format_duration_ms(ms: i64) -> (r: String)
    requires
        0 <= ms,
    ensures
        r@ == human_duration_of(ms as int),
{
    let d = std::time::Duration::from_millis(ms as u64);
    humantime::format_duration(d).to_string()
}

/// One path in double quotes.
pub open spec fn spec_quoted(p: Seq<char>) -> Seq<char> {
    "\""@ + p + "\""@
}

/// The first `j` paths, each in double quotes, joined with a comma.
pub open spec fn spec_quoted_join_upto(paths: Seq<String>, j: int) -> Seq<char>
    decreases j,
{
    if j <= 0 {
        Seq::empty()
    } else if j == 1 {
        spec_quoted(paths[0]@)
    } else {
        spec_quoted_join_upto(paths, j - 1) + ", "@ + spec_quoted(paths[j - 1]@)
    }
}

/// All paths, each in double quotes, joined with a comma.
pub open spec fn spec_quoted_join(paths: Seq<String>) -> Seq<char> {
    spec_quoted_join_upto(paths, paths.len() as int)
}

/// The elapsed time shown for a job: the time since its last run, clamped
/// to zero and rounded down to the minute.
pub open spec fn spec_elapsed_shown(now: int, last_backup: int) -> int {
    let since = if last_backup <= now {
        now - last_backup
    } else {
        0
    };
    spec_rounded(since, RoundAccuracy::Minutes, RoundDirection::Down)
}

/// The remaining time shown for a job: the time until its next run,
/// clamped to zero and rounded down to the minute.
pub open spec fn spec_remaining_shown(now: int, script: Script) -> int {
    let nb = spec_next_backup(now, script);
    let until = if nb >= now {
        nb - now
    } else {
        0
    };
    spec_rounded(until, RoundAccuracy::Minutes, RoundDirection::Down)
}

/// The two tooltip lines rendered for one job: when it last ran, and what
/// it is doing or waiting for.
pub open spec fn spec_script_tooltip(now: int, script: Script, st: ScriptState) -> Seq<char> {
    let last_line = match script.last_backup {
        Some(lb) => "Last backup was "@ + human_duration_of(spec_elapsed_shown(now, lb as int))
            + " ago"@,
        None => "Never backed up before"@,
    };
    let status_line = match st {
        ScriptState::WaitingForTime => "Next backup in "@ + human_duration_of(
            spec_remaining_shown(now, script),
        ),
        ScriptState::WaitingForPaths(paths) => "Waiting for folders "@ + spec_quoted_join(paths@)
            + " to be mounted"@,
        ScriptState::Running => "Running"@,
        ScriptState::Failed(_, message) => "Failed: "@ + message@,
    };
    last_line + "\n"@ + status_line
}

/// Renders the two tooltip lines for one job from its recorded state.
pub fn script_tooltip(now: i64, script: &Script, st: &ScriptState) -> (r: String)
    requires
        valid_ts(now as int),
        script.wf(),
        st.wf(),
    ensures
        r@ == spec_script_tooltip(now as int, *script, *st),
{
    let mut out = String::new();
    match script.last_backup {
        Some(lb) => {
            let since = if lb <= now {
                now - lb
            } else {
                0
            };
            let (rounded, _) = round_duration(since, RoundAccuracy::Minutes, RoundDirection::Down);
            proof {
                lemma_round_bounds(since as int, RoundAccuracy::Minutes, RoundDirection::Down);
            }
            out.append("Last backup was ");
            let shown = format_duration_ms(rounded);
            out.append(shown.as_str());
            out.append(" ago");
        },
        None => {
            out.append("Never backed up before");
        },
    }
    out.append("\n");
    match st {
        ScriptState::WaitingForTime => {
            let nb = next_backup(now, script);
            let until = if nb >= now {
                nb - now
            } else {
                0
            };
            let (rounded, _) = round_duration(until, RoundAccuracy::Minutes, RoundDirection::Down);
            proof {
                lemma_round_bounds(until as int, RoundAccuracy::Minutes, RoundDirection::Down);
            }
            out.append("Next backup in ");
            let shown = format_duration_ms(rounded);
            out.append(shown.as_str());
        },
        ScriptState::WaitingForPaths(paths) => {
            out.append("Waiting for folders ");
            let n = paths.len();
            let ghost base = out@;
            for j in 0..n
                invariant
                    n == paths@.len(),
                    out@ == base + spec_quoted_join_upto(paths@, j as int),
            {
                if j > 0 {
                    out.append(", ");
                }
                out.append("\"");
                out.append(paths[j].as_str());
                out.append("\"");
            }
            out.append(" to be mounted");
        },
        ScriptState::Running => {
            out.append("Running");
        },
        ScriptState::Failed(_, message) => {
            out.append("Failed: ");
            out.append(message.as_str());
        },
    }
    proof {
        assert(out@ =~= spec_script_tooltip(now as int, *script, *st));
    }
    out
}

impl ScriptManager {
    /// The tooltip entry for the job at index `i`: its name, then its two
    /// rendered lines, from its raw recorded state.
    pub open spec fn spec_tooltip_item(self, now: int, i: int) -> Seq<char> {
        let script = self.settings.scripts@[i];
        script.name@ + ":\n"@ + spec_script_tooltip(now, script, self.spec_state(script.name@))
    }

    /// The first `i` tooltip entries joined with a blank line.
    pub open spec fn spec_tooltip_upto(self, now: int, i: int) -> Seq<char>
        decreases i,
    {
        if i <= 0 {
            Seq::empty()
        } else if i == 1 {
            self.spec_tooltip_item(now, 0)
        } else {
            self.spec_tooltip_upto(now, i - 1) + "\n\n"@ + self.spec_tooltip_item(now, i - 1)
        }
    }

    /// The whole tooltip: one entry per job joined with blank lines, or a
    /// placeholder when no job is configured.
    pub open spec fn spec_tooltip(self, now: int) -> Seq<char> {
        if self.settings.scripts@.len() == 0 {
            "No backup scripts configured"@
        } else {
            self.spec_tooltip_upto(now, self.settings.scripts@.len() as int)
        }
    }

    /// Renders the tooltip for every configured job.
    pub fn tooltip(&self, now: i64) -> (r: String)
        requires
            self.wf(),
            valid_ts(now as int),
        ensures
            r@ == self.spec_tooltip(now as int),
    {
        if self.settings.scripts.len() == 0 {
            return String::from_str("No backup scripts configured");
        }
        let mut out = String::new();
        let n = self.settings.scripts.len();
        for i in 0..n
            invariant
                n == self.settings.scripts@.len(),
                0 < n,
                self.wf(),
                valid_ts(now as int),
                out@ == self.spec_tooltip_upto(now as int, i as int),
        {
            if i > 0 {
                out.append("\n\n");
            }
            let script = &self.settings.scripts[i];
            out.append(script.name.as_str());
            out.append(":\n");
            let rendered = match self.stored_state_ref(&script.name) {
                Some(st) => script_tooltip(now, script, st),
                None => script_tooltip(now, script, &ScriptState::WaitingForTime),
            };
            out.append(rendered.as_str());
            proof {
                assert(out@ =~= self.spec_tooltip_upto(now as int, i + 1));
            }
        }
        out
    }
}

} // verus!
