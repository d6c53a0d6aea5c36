use crate::decimal::{push_dec_i32, spec_dec_int};
use crate::mounts::{contains_string, parse_mounts, spec_mount_set, str_eq};
use crate::schedule::{
    next_backup, next_reminder, next_ui_update, spec_backup_candidate, spec_next_backup,
    spec_reminder_candidate, spec_ui_candidate, ScriptState,
};
use crate::settings::{PostScriptAction, Script, Settings};
use crate::{opt_int, valid_ts, RETRY_INTERVAL_MS};
use vstd::pervasive::VecAdditionalExecFns;
use vstd::prelude::*;

verus! {

/// The state a job name maps to: the recorded entry, or waiting for its
/// schedule time when nothing was recorded yet.
pub open spec fn spec_stored_state(states: Seq<(String, ScriptState)>, name: Seq<char>) -> ScriptState
    decreases states.len(),
{
    if states.len() == 0 {
        ScriptState::WaitingForTime
    } else if states[0].0@ == name {
        states[0].1
    } else {
        spec_stored_state(states.drop_first(), name)
    }
}

/// Whether some entry is recorded under the given name.
pub open spec fn spec_has_key(states: Seq<(String, ScriptState)>, name: Seq<char>) -> bool {
    exists|i: int| 0 <= i < states.len() && states[i].0@ == name
}

/// No two entries share a name.
pub open spec fn spec_unique_keys(states: Seq<(String, ScriptState)>) -> bool {
    forall|i: int, j: int| 0 <= i < j < states.len() ==> states[i].0@ != states[j].0@
}

/// The lookup yields the entry at the first index whose key matches.
proof fn lemma_stored_state_at(states: Seq<(String, ScriptState)>, name: Seq<char>, i: int)
    requires
        0 <= i < states.len(),
        states[i].0@ == name,
        forall|k: int| 0 <= k < i ==> states[k].0@ != name,
    ensures
        spec_stored_state(states, name) == states[i].1,
    decreases i,
{
    if i > 0 {
        lemma_stored_state_at(states.drop_first(), name, i - 1);
    }
}

/// The lookup yields the default when no entry matches.
proof fn lemma_stored_state_absent(states: Seq<(String, ScriptState)>, name: Seq<char>)
    requires
        !spec_has_key(states, name),
    ensures
        spec_stored_state(states, name) == ScriptState::WaitingForTime,
    decreases states.len(),
{
    if states.len() > 0 {
        assert(!spec_has_key(states.drop_first(), name)) by {
            assert forall|i: int|
                0 <= i < states.drop_first().len() implies states.drop_first()[i].0@ != name by {
                assert(states.drop_first()[i] == states[i + 1]);
            }
        }
        lemma_stored_state_absent(states.drop_first(), name);
    }
}

/// Two tables whose entries agree everywhere a key matches `name` (and
/// whose keys line up) give the same lookup for `name`.
proof fn lemma_stored_state_agree(
    s1: Seq<(String, ScriptState)>,
    s2: Seq<(String, ScriptState)>,
    name: Seq<char>,
)
    requires
        s1.len() == s2.len(),
        forall|k: int| 0 <= k < s1.len() ==> (#[trigger] s1[k]).0@ == (#[trigger] s2[k]).0@,
        forall|k: int| 0 <= k < s1.len() ==> ((#[trigger] s1[k]).0@ == name ==> s1[k].1 == s2[k].1),
    ensures
        spec_stored_state(s1, name) == spec_stored_state(s2, name),
    decreases s1.len(),
{
    if s1.len() > 0 {
        assert(forall|k: int|
            0 <= k < s1.drop_first().len() ==> (#[trigger] s1.drop_first()[k]) == s1[k + 1]);
        assert(forall|k: int|
            0 <= k < s2.drop_first().len() ==> (#[trigger] s2.drop_first()[k]) == s2[k + 1]);
        lemma_stored_state_agree(s1.drop_first(), s2.drop_first(), name);
    }
}

/// Appending an entry for an unrecorded key leaves every other lookup
/// unchanged and makes the new key's lookup yield the appended entry.
proof fn lemma_stored_state_push(
    states: Seq<(String, ScriptState)>,
    entry: (String, ScriptState),
    name: Seq<char>,
)
    ensures
        spec_stored_state(states.push(entry), name) == if spec_has_key(states, name) {
            spec_stored_state(states, name)
        } else if entry.0@ == name {
            entry.1
        } else {
            ScriptState::WaitingForTime
        },
    decreases states.len(),
{
    if states.len() == 0 {
        assert(states.push(entry)[0] == entry);
        if entry.0@ != name {
            assert(!spec_has_key(states.push(entry), name)) by {
                assert(forall|i: int|
                    0 <= i < states.push(entry).len() ==> #[trigger] states.push(entry)[i]
                        == entry);
            }
            lemma_stored_state_absent(states.push(entry), name);
        }
    } else {
        assert(states.push(entry).drop_first() =~= states.drop_first().push(entry));
        lemma_stored_state_push(states.drop_first(), entry, name);
        if states[0].0@ != name {
            assert(spec_has_key(states.drop_first(), name) == spec_has_key(states, name)) by {
                if spec_has_key(states, name) {
                    let i = choose|i: int| 0 <= i < states.len() && states[i].0@ == name;
                    assert(states.drop_first()[i - 1] == states[i]);
                }
                if spec_has_key(states.drop_first(), name) {
                    let i = choose|i: int|
                        0 <= i < states.drop_first().len() && states.drop_first()[i].0@ == name;
                    assert(states[i + 1] == states.drop_first()[i]);
                }
            }
        }
    }
}

/// Whether the path is in the current mount set.
pub open spec fn spec_mounted(mounts: Seq<String>, p: Seq<char>) -> bool {
    exists|i: int| 0 <= i < mounts.len() && mounts[i]@ == p
}

/// Whether some required path is still recorded as missing.
pub open spec fn spec_paths_intersect(mount_paths: Seq<String>, missing: Seq<String>) -> bool {
    exists|i: int, j: int|
        0 <= i < mount_paths.len() && 0 <= j < missing.len() && mount_paths[i]@ == missing[j]@
}

/// Owns every job's state and the mount set, and aggregates per-job
/// deadlines into the process-wide schedule.
pub struct ScriptManager {
    /// The configuration snapshot the schedule works from.
    pub settings: Settings,
    /// Recorded job states, keyed by unique job name.
    pub states: Vec<(String, ScriptState)>,
    /// The set of currently mounted paths.
    pub mounts: Vec<String>,
}

impl ScriptManager {
    /// States are uniquely keyed and in range, and the settings are
    /// well-formed.
    pub open spec fn wf(self) -> bool {
        &&& self.settings.wf()
        &&& spec_unique_keys(self.states@)
        &&& forall|i: int| 0 <= i < self.states@.len() ==> (#[trigger] self.states@[i]).1.wf()
    }

    /// The state recorded for a name, or the waiting-for-time default.
    pub open spec fn spec_state(self, name: Seq<char>) -> ScriptState {
        spec_stored_state(self.states@, name)
    }

    /// Whether a path is currently mounted.
    pub open spec fn spec_is_mounted(self, p: Seq<char>) -> bool {
        spec_mounted(self.mounts@, p)
    }

    /// The job's state as the schedule sees it: a path wait whose missing
    /// paths are no longer required or no longer missing heals back to
    /// waiting for time on inspection.
    pub open spec fn spec_effective_state(self, script: Script) -> ScriptState {
        let st = self.spec_state(script.name@);
        match st {
            ScriptState::WaitingForPaths(missing) => if spec_paths_intersect(
                script.mount_paths@,
                missing@,
            ) {
                st
            } else {
                ScriptState::WaitingForTime
            },
            _ => st,
        }
    }

    /// Builds a manager over a configuration snapshot and an initial
    /// mount-table text; every job starts waiting for its schedule time.
    pub fn new(settings: Settings, mounts: &str) -> (r: ScriptManager)
        requires
            settings.wf(),
        ensures
            r.wf(),
            r.settings == settings,
            r.states@.len() == 0,
            forall|n: Seq<char>| r.spec_state(n) == ScriptState::WaitingForTime,
            forall|p: Seq<char>| r.spec_is_mounted(p) <==> spec_mount_set(mounts@).contains(p),
    {
        ScriptManager { settings, states: Vec::new(), mounts: parse_mounts(mounts) }
    }

    /// Replaces the mount set from a fresh mount-table text; job states
    /// and configuration are untouched.
    pub fn set_mounts(&mut self, mounts: &str)
        requires
            old(self).wf(),
        ensures
            final(self).wf(),
            final(self).settings == old(self).settings,
            final(self).states@ == old(self).states@,
            forall|p: Seq<char>|
                final(self).spec_is_mounted(p) <==> spec_mount_set(mounts@).contains(p),
    {
        self.mounts = parse_mounts(mounts);
    }

    /// Whether the given path is currently mounted.
    pub fn is_mounted(&self, path: &String) -> (r: bool)
        ensures
            r == self.spec_is_mounted(path@),
    {
        contains_string(&self.mounts, path)
    }

    /// Records a state under the job's name, replacing any earlier entry.
    fn set_state(&mut self, name: &String, st: ScriptState)
        requires
            old(self).wf(),
            st.wf(),
        ensures
            final(self).wf(),
            final(self).settings == old(self).settings,
            final(self).mounts@ == old(self).mounts@,
            final(self).spec_state(name@) == st,
            forall|n: Seq<char>|
                n != name@ ==> final(self).spec_state(n) == old(self).spec_state(n),
    {
        let ghost old_states = self.states@;
        let count = self.states.len();
        for i in 0..count
            invariant
                count == self.states@.len(),
                *self == *old(self),
                self.states@ == old_states,
                old(self).wf(),
                st.wf(),
                forall|k: int| 0 <= k < i ==> (#[trigger] old_states[k]).0@ != name@,
        {
            if self.states[i].0 == *name {
                let entry = (name.clone(), st);
                proof {
                    assert(entry.0@ == name@);
                }
                self.states.set(i, entry);
                proof {
                    let new_states = self.states@;
                    assert(new_states == old_states.update(i as int, entry));
                    assert forall|k: int|
                        0 <= k < new_states.len() implies (#[trigger] new_states[k]).0@
                        == old_states[k].0@ by {}
                    lemma_stored_state_at(new_states, name@, i as int);
                    assert forall|n: Seq<char>| n != name@ implies spec_stored_state(
                        new_states,
                        n,
                    ) == spec_stored_state(old_states, n) by {
                        lemma_stored_state_agree(new_states, old_states, n);
                    }
                }
                return ;
            }
        }
        proof {
            assert(!spec_has_key(old_states, name@));
        }
        let entry = (name.clone(), st);
        let ghost pushed = entry;
        self.states.push(entry);
        proof {
            let new_states = self.states@;
            assert forall|n: Seq<char>| true implies spec_stored_state(new_states, n) == (
            if n == name@ {
                st
            } else {
                spec_stored_state(old_states, n)
            }) by {
                lemma_stored_state_push(old_states, pushed, n);
                if n != name@ && !spec_has_key(old_states, n) {
                    lemma_stored_state_absent(old_states, n);
                }
            }
            assert(spec_unique_keys(new_states)) by {
                assert(forall|k: int|
                    0 <= k < old_states.len() ==> #[trigger] new_states[k] == old_states[k]);
            }
        }
    }

    /// A reference to the entry recorded for the name, if any.
    pub(crate) fn stored_state_ref(&self, name: &String) -> (r: Option<&ScriptState>)
        requires
            self.wf(),
        ensures
            match r {
                Some(st) => self.spec_state(name@) == *st && st.wf(),
                None => self.spec_state(name@) == ScriptState::WaitingForTime,
            },
    {
        let count = self.states.len();
        for i in 0..count
            invariant
                count == self.states@.len(),
                self.wf(),
                forall|k: int| 0 <= k < i ==> (#[trigger] self.states@[k]).0@ != name@,
        {
            if self.states[i].0 == *name {
                proof {
                    lemma_stored_state_at(self.states@, name@, i as int);
                }
                return Some(&self.states[i].1);
            }
        }
        proof {
            lemma_stored_state_absent(self.states@, name@);
        }
        None
    }

    /// Whether any required path is still listed as missing.
    fn paths_intersect(mount_paths: &Vec<String>, missing: &Vec<String>) -> (r: bool)
        ensures
            r == spec_paths_intersect(mount_paths@, missing@),
    {
        let n = mount_paths.len();
        for i in 0..n
            invariant
                n == mount_paths@.len(),
                forall|k: int, j: int|
                    0 <= k < i && 0 <= j < missing@.len() ==> mount_paths@[k]@ != missing@[j]@,
        {
            if contains_string(missing, &mount_paths[i]) {
                return true;
            }
        }
        false
    }

    /// The candidate the job at index `i` contributes to the aggregate
    /// next-run time.
    pub open spec fn spec_backup_candidate_of(self, now: int, i: int) -> Option<int> {
        spec_backup_candidate(
            now,
            self.settings.scripts@[i],
            self.spec_effective_state(self.settings.scripts@[i]),
        )
    }

    /// The candidate the job at index `i` contributes to the aggregate
    /// next-reminder time.
    pub open spec fn spec_reminder_candidate_of(self, now: int, i: int) -> Option<int> {
        spec_reminder_candidate(
            now,
            self.settings.scripts@[i],
            self.spec_effective_state(self.settings.scripts@[i]),
        )
    }

    /// The candidate the job at index `i` contributes to the aggregate
    /// next-UI-refresh time.
    pub open spec fn spec_ui_candidate_of(self, now: int, i: int) -> Option<int> {
        spec_ui_candidate(
            now,
            self.settings.scripts@[i],
            self.spec_effective_state(self.settings.scripts@[i]),
        )
    }

    /// The earlier of two optional deadlines.
    pub open spec fn spec_min_opt(a: Option<int>, b: Option<int>) -> Option<int> {
        match (a, b) {
            (None, x) => x,
            (x, None) => x,
            (Some(x), Some(y)) => if y < x {
                Some(y)
            } else {
                Some(x)
            },
        }
    }

    /// The earliest next-run candidate among the first `i` jobs.
    pub open spec fn spec_agg_backup_upto(self, now: int, i: int) -> Option<int>
        decreases i,
    {
        if i <= 0 {
            None
        } else {
            Self::spec_min_opt(
                self.spec_agg_backup_upto(now, i - 1),
                self.spec_backup_candidate_of(now, i - 1),
            )
        }
    }

    /// The process-wide next-run time: the earliest candidate of any job.
    pub open spec fn spec_agg_next_backup(self, now: int) -> Option<int> {
        self.spec_agg_backup_upto(now, self.settings.scripts@.len() as int)
    }

    /// The earliest reminder candidate among the first `i` jobs.
    pub open spec fn spec_agg_reminder_upto(self, now: int, i: int) -> Option<int>
        decreases i,
    {
        if i <= 0 {
            None
        } else {
            Self::spec_min_opt(
                self.spec_agg_reminder_upto(now, i - 1),
                self.spec_reminder_candidate_of(now, i - 1),
            )
        }
    }

    /// The process-wide raw reminder deadline: the earliest candidate of
    /// any job.
    pub open spec fn spec_agg_next_reminder(self, now: int) -> Option<int> {
        self.spec_agg_reminder_upto(now, self.settings.scripts@.len() as int)
    }

    /// The earliest UI-refresh candidate among the first `i` jobs.
    pub open spec fn spec_agg_ui_upto(self, now: int, i: int) -> Option<int>
        decreases i,
    {
        if i <= 0 {
            None
        } else {
            Self::spec_min_opt(
                self.spec_agg_ui_upto(now, i - 1),
                self.spec_ui_candidate_of(now, i - 1),
            )
        }
    }

    /// The process-wide next UI refresh: the earliest candidate of any
    /// job.
    pub open spec fn spec_agg_next_ui_update(self, now: int) -> Option<int> {
        self.spec_agg_ui_upto(now, self.settings.scripts@.len() as int)
    }

    /// One job's contribution to the aggregate next-run time, from its
    /// effective state.
    fn backup_candidate(&self, now: i64, script: &Script) -> (r: Option<i64>)
        requires
            self.wf(),
            valid_ts(now as int),
            script.wf(),
        ensures
            opt_int(r) == spec_backup_candidate(
                now as int,
                *script,
                self.spec_effective_state(*script),
            ),
    {
        match self.stored_state_ref(&script.name) {
            None => Some(next_backup(now, script)),
            Some(st) => match st {
                ScriptState::WaitingForTime => Some(next_backup(now, script)),
                ScriptState::Running => None,
                ScriptState::Failed(ts, _) => Some(*ts + RETRY_INTERVAL_MS),
                ScriptState::WaitingForPaths(missing) => {
                    if Self::paths_intersect(&script.mount_paths, missing) {
                        None
                    } else {
                        Some(next_backup(now, script))
                    }
                },
            },
        }
    }

    /// One job's contribution to the aggregate next-reminder time: its
    /// reminder deadline unless a run is in progress.
    fn reminder_candidate(&self, now: i64, script: &Script) -> (r: Option<i64>)
        requires
            self.wf(),
            valid_ts(now as int),
            script.wf(),
        ensures
            opt_int(r) == spec_reminder_candidate(
                now as int,
                *script,
                self.spec_effective_state(*script),
            ),
    {
        match self.stored_state_ref(&script.name) {
            Some(ScriptState::Running) => None,
            _ => next_reminder(now, script),
        }
    }

    /// One job's contribution to the aggregate next-UI-refresh time: only
    /// jobs waiting for their schedule time are counted.
    fn ui_candidate(&self, now: i64, script: &Script) -> (r: Option<i64>)
        requires
            self.wf(),
            valid_ts(now as int),
            script.wf(),
        ensures
            opt_int(r) == spec_ui_candidate(
                now as int,
                *script,
                self.spec_effective_state(*script),
            ),
    {
        match self.stored_state_ref(&script.name) {
            None => Some(next_ui_update(now, script)),
            Some(st) => match st {
                ScriptState::WaitingForTime => Some(next_ui_update(now, script)),
                ScriptState::WaitingForPaths(missing) => {
                    if Self::paths_intersect(&script.mount_paths, missing) {
                        None
                    } else {
                        Some(next_ui_update(now, script))
                    }
                },
                _ => None,
            },
        }
    }

    /// The earliest next-run time over all jobs, or nothing when no job
    /// contributes one.
    pub fn next_backup(&self, now: i64) -> (r: Option<i64>)
        requires
            self.wf(),
            valid_ts(now as int),
        ensures
            opt_int(r) == self.spec_agg_next_backup(now as int),
            r is None ==> forall|k: int|
                0 <= k < self.settings.scripts@.len() ==> (#[trigger] self.spec_backup_candidate_of(
                    now as int,
                    k,
                )) is None,
            r matches Some(t) ==> exists|k: int|
                0 <= k < self.settings.scripts@.len() && #[trigger] self.spec_backup_candidate_of(
                    now as int,
                    k,
                ) == Some(t as int),
            r matches Some(t) ==> forall|k: int|
                0 <= k < self.settings.scripts@.len() ==> match #[trigger] self.spec_backup_candidate_of(
                    now as int,
                    k,
                ) {
                    Some(v) => t as int <= v,
                    None => true,
                },
    {
        let mut best: Option<i64> = None;
        let n = self.settings.scripts.len();
        for i in 0..n
            invariant
                opt_int(best) == self.spec_agg_backup_upto(now as int, i as int),
                n == self.settings.scripts@.len(),
                self.wf(),
                valid_ts(now as int),
                best is None ==> forall|k: int|
                    0 <= k < i ==> (#[trigger] self.spec_backup_candidate_of(now as int, k))
                        is None,
                best matches Some(b) ==> exists|k: int|
                    0 <= k < i && #[trigger] self.spec_backup_candidate_of(now as int, k) == Some(
                        b as int,
                    ),
                best matches Some(b) ==> forall|k: int|
                    0 <= k < i ==> match #[trigger] self.spec_backup_candidate_of(now as int, k) {
                        Some(v) => b as int <= v,
                        None => true,
                    },
        {
            let c = self.backup_candidate(now, &self.settings.scripts[i]);
            proof {
                assert(opt_int(c) == self.spec_backup_candidate_of(now as int, i as int));
            }
            match c {
                Some(t) => match best {
                    None => {
                        best = Some(t);
                    },
                    Some(b) => {
                        if t < b {
                            best = Some(t);
                        }
                    },
                },
                None => {},
            }
        }
        best
    }

    /// The earliest reminder deadline over all jobs that are not running.
    pub fn next_reminder(&self, now: i64) -> (r: Option<i64>)
        requires
            self.wf(),
            valid_ts(now as int),
        ensures
            opt_int(r) == self.spec_agg_next_reminder(now as int),
            r is None ==> forall|k: int|
                0 <= k < self.settings.scripts@.len() ==> (
                #[trigger] self.spec_reminder_candidate_of(now as int, k)) is None,
            r matches Some(t) ==> exists|k: int|
                0 <= k < self.settings.scripts@.len()
                    && #[trigger] self.spec_reminder_candidate_of(now as int, k) == Some(t as int),
            r matches Some(t) ==> forall|k: int|
                0 <= k < self.settings.scripts@.len() ==> match #[trigger] self.spec_reminder_candidate_of(
                    now as int,
                    k,
                ) {
                    Some(v) => t as int <= v,
                    None => true,
                },
    {
        let mut best: Option<i64> = None;
        let n = self.settings.scripts.len();
        for i in 0..n
            invariant
                opt_int(best) == self.spec_agg_reminder_upto(now as int, i as int),
                n == self.settings.scripts@.len(),
                self.wf(),
                valid_ts(now as int),
                best is None ==> forall|k: int|
                    0 <= k < i ==> (#[trigger] self.spec_reminder_candidate_of(now as int, k))
                        is None,
                best matches Some(b) ==> exists|k: int|
                    0 <= k < i && #[trigger] self.spec_reminder_candidate_of(now as int, k)
                        == Some(b as int),
                best matches Some(b) ==> forall|k: int|
                    0 <= k < i ==> match #[trigger] self.spec_reminder_candidate_of(
                        now as int,
                        k,
                    ) {
                        Some(v) => b as int <= v,
                        None => true,
                    },
        {
            let c = self.reminder_candidate(now, &self.settings.scripts[i]);
            proof {
                assert(opt_int(c) == self.spec_reminder_candidate_of(now as int, i as int));
            }
            match c {
                Some(t) => match best {
                    None => {
                        best = Some(t);
                    },
                    Some(b) => {
                        if t < b {
                            best = Some(t);
                        }
                    },
                },
                None => {},
            }
        }
        best
    }

    /// The earliest moment a displayed duration changes, over all jobs
    /// waiting for their schedule time.
    pub fn next_ui_update(&self, now: i64) -> (r: Option<i64>)
        requires
            self.wf(),
            valid_ts(now as int),
        ensures
            opt_int(r) == self.spec_agg_next_ui_update(now as int),
            r is None ==> forall|k: int|
                0 <= k < self.settings.scripts@.len() ==> (#[trigger] self.spec_ui_candidate_of(
                    now as int,
                    k,
                )) is None,
            r matches Some(t) ==> exists|k: int|
                0 <= k < self.settings.scripts@.len() && #[trigger] self.spec_ui_candidate_of(
                    now as int,
                    k,
                ) == Some(t as int),
            r matches Some(t) ==> forall|k: int|
                0 <= k < self.settings.scripts@.len() ==> match #[trigger] self.spec_ui_candidate_of(
                    now as int,
                    k,
                ) {
                    Some(v) => t as int <= v,
                    None => true,
                },
    {
        let mut best: Option<i64> = None;
        let n = self.settings.scripts.len();
        for i in 0..n
            invariant
                opt_int(best) == self.spec_agg_ui_upto(now as int, i as int),
                n == self.settings.scripts@.len(),
                self.wf(),
                valid_ts(now as int),
                best is None ==> forall|k: int|
                    0 <= k < i ==> (#[trigger] self.spec_ui_candidate_of(now as int, k)) is None,
                best matches Some(b) ==> exists|k: int|
                    0 <= k < i && #[trigger] self.spec_ui_candidate_of(now as int, k) == Some(
                        b as int,
                    ),
                best matches Some(b) ==> forall|k: int|
                    0 <= k < i ==> match #[trigger] self.spec_ui_candidate_of(now as int, k) {
                        Some(v) => b as int <= v,
                        None => true,
                    },
        {
            let c = self.ui_candidate(now, &self.settings.scripts[i]);
            proof {
                assert(opt_int(c) == self.spec_ui_candidate_of(now as int, i as int));
            }
            match c {
                Some(t) => match best {
                    None => {
                        best = Some(t);
                    },
                    Some(b) => {
                        if t < b {
                            best = Some(t);
                        }
                    },
                },
                None => {},
            }
        }
        best
    }

}

/// What the run procedure decided for one job.
#[derive(Clone, Copy, PartialEq, Eq, Structural, Debug)]
pub enum RunDecision {
    /// The job was not selected: not named as the target and not due.
    NotDue,
    /// Required paths are missing; the job is now waiting for them.
    Blocked,
    /// The job's state is now `Running`; the caller must execute the
    /// payload and report the outcome.
    Started,
}

/// How one execution of a backup payload ended.
#[derive(Debug)]
pub enum RunOutcome {
    /// The payload exited with status zero.
    Success,
    /// The payload exited with the given non-zero exit code.
    ExitCode(i32),
    /// The payload was terminated without an exit code.
    Abnormal,
    /// The payload could not be started; carries the error text.
    SpawnError(String),
}

/// An optional target name, as characters.
pub open spec fn opt_name(target: Option<&str>) -> Option<Seq<char>> {
    match target {
        Some(s) => Some(s@),
        None => None,
    }
}

/// Whether the run procedure picks this job: it is the named target, or no
/// target was named and the job's schedule time has arrived.
pub open spec fn spec_selected(now: int, script: Script, target: Option<Seq<char>>) -> bool {
    match target {
        Some(n) => script.name@ == n,
        None => spec_next_backup(now, script) <= now,
    }
}

/// Whether every required path is mounted.
pub open spec fn spec_all_mounted(mount_paths: Seq<String>, mounts: Seq<String>) -> bool {
    forall|j: int| 0 <= j < mount_paths.len() ==> spec_mounted(mounts, (#[trigger] mount_paths[j])@)
}

/// Keeps the paths that are not mounted.
pub open spec fn missing_filter(mounts: Seq<String>) -> spec_fn(String) -> bool {
    |p: String| !spec_mounted(mounts, p@)
}

/// The required paths that are not mounted, in configuration order.
pub open spec fn spec_missing_paths(mount_paths: Seq<String>, mounts: Seq<String>) -> Seq<String> {
    mount_paths.filter(missing_filter(mounts))
}

/// The message recorded with a failed run.
pub open spec fn spec_failure_message(name: Seq<char>, outcome: RunOutcome) -> Seq<char> {
    match outcome {
        RunOutcome::ExitCode(code) => name + " failed with exit code "@ + spec_dec_int(code as int),
        RunOutcome::Abnormal => name + " failed"@,
        RunOutcome::SpawnError(e) => e@,
        RunOutcome::Success => Seq::empty(),
    }
}

impl ScriptManager {
    /// Whether every path the job requires is mounted.
    fn all_mounted(mount_paths: &Vec<String>, mounts: &Vec<String>) -> (r: bool)
        ensures
            r == spec_all_mounted(mount_paths@, mounts@),
    {
        let n = mount_paths.len();
        for j in 0..n
            invariant
                n == mount_paths@.len(),
                forall|k: int| 0 <= k < j ==> spec_mounted(mounts@, (#[trigger] mount_paths@[k])@),
        {
            if !contains_string(mounts, &mount_paths[j]) {
                return false;
            }
        }
        true
    }

    /// The required paths that are not mounted, in configuration order.
    fn missing_paths(mount_paths: &Vec<String>, mounts: &Vec<String>) -> (r: Vec<String>)
        ensures
            r@ == spec_missing_paths(mount_paths@, mounts@),
    {
        let mut r: Vec<String> = Vec::new();
        let n = mount_paths.len();
        proof {
            reveal(Seq::filter);
            assert(mount_paths@.take(0) =~= Seq::<String>::empty());
        }
        for j in 0..n
            invariant
                n == mount_paths@.len(),
                r@ == mount_paths@.take(j as int).filter(missing_filter(mounts@)),
            decreases n - j,
        {
            let ghost prefix = mount_paths@.take(j as int);
            let ghost next_prefix = mount_paths@.take(j + 1);
            proof {
                reveal(Seq::filter);
                assert(next_prefix.drop_last() =~= prefix);
                assert(next_prefix.last() == mount_paths@[j as int]);
            }
            if !contains_string(mounts, &mount_paths[j]) {
                r.push(mount_paths[j].clone());
                proof {
                    assert(r@.last() == mount_paths@[j as int]) by {
                        assert(vstd::pervasive::cloned::<String>(
                            mount_paths@[j as int],
                            r@.last(),
                        ));
                    }
                    assert(r@ =~= next_prefix.filter(missing_filter(mounts@)));
                }
            } else {
                proof {
                    assert(r@ =~= next_prefix.filter(missing_filter(mounts@)));
                }
            }
        }
        proof {
            assert(mount_paths@.take(n as int) =~= mount_paths@);
        }
        r
    }

    /// Decides the run procedure's first step for the job at index `i`:
    /// skip it, block it on its missing paths, or mark it running so the
    /// caller executes its payload.
    pub fn begin_run(&mut self, now: i64, i: usize, target: Option<&str>) -> (d: RunDecision)
        requires
            old(self).wf(),
            valid_ts(now as int),
            i < old(self).settings.scripts@.len(),
        ensures
            final(self).wf(),
            final(self).settings == old(self).settings,
            final(self).mounts@ == old(self).mounts@,
            ({
                let script = old(self).settings.scripts@[i as int];
                let sel = spec_selected(now as int, script, opt_name(target));
                &&& (!sel ==> d is NotDue && final(self).states@ == old(self).states@)
                &&& (sel && spec_all_mounted(script.mount_paths@, old(self).mounts@) ==> d
                    is Started && final(self).spec_state(script.name@) == ScriptState::Running)
                &&& (sel && !spec_all_mounted(script.mount_paths@, old(self).mounts@) ==> d
                    is Blocked && (final(self).spec_state(script.name@) matches
                    ScriptState::WaitingForPaths(m) && m@ == spec_missing_paths(
                    script.mount_paths@,
                    old(self).mounts@,
                )))
                &&& forall|n: Seq<char>|
                    n != script.name@ ==> final(self).spec_state(n) == old(self).spec_state(n)
            }),
    {
        let selected = match target {
            Some(t) => str_eq(self.settings.scripts[i].name.as_str(), t),
            None => next_backup(now, &self.settings.scripts[i]) <= now,
        };
        if !selected {
            return RunDecision::NotDue;
        }
        let name = self.settings.scripts[i].name.clone();
        if Self::all_mounted(&self.settings.scripts[i].mount_paths, &self.mounts) {
            self.set_state(&name, ScriptState::Running);
            RunDecision::Started
        } else {
            let missing = Self::missing_paths(&self.settings.scripts[i].mount_paths, &self.mounts);
            self.set_state(&name, ScriptState::WaitingForPaths(missing));
            RunDecision::Blocked
        }
    }

    /// Records how a run of the job at index `i` ended: a success resets
    /// the job to waiting and stamps its last run time into the
    /// configuration (which the caller persists); any failure records a
    /// failed state at `now` with the exact message the outcome dictates.
    pub fn record_result(&mut self, now: i64, i: usize, outcome: RunOutcome)
        requires
            old(self).wf(),
            valid_ts(now as int),
            i < old(self).settings.scripts@.len(),
        ensures
            final(self).wf(),
            final(self).mounts@ == old(self).mounts@,
            ({
                let script = old(self).settings.scripts@[i as int];
                &&& (outcome is Success ==> final(self).settings.scripts@ == old(
                    self,
                ).settings.scripts@.update(
                    i as int,
                    (Script { last_backup: Some(now), ..script }),
                ) && final(self).spec_state(script.name@) == ScriptState::WaitingForTime)
                &&& (!(outcome is Success) ==> final(self).settings == old(self).settings && (
                final(self).spec_state(script.name@) matches ScriptState::Failed(at, m) && at == now
                    && m@ == spec_failure_message(script.name@, outcome)
                ))
                &&& final(self).settings.icon_name == old(self).settings.icon_name
                &&& final(self).settings.title == old(self).settings.title
                &&& final(self).settings.autostart == old(self).settings.autostart
                &&& forall|n: Seq<char>|
                    n != script.name@ ==> final(self).spec_state(n) == old(self).spec_state(n)
            }),
    {
        let name = self.settings.scripts[i].name.clone();
        match outcome {
            RunOutcome::Success => {
                self.settings.scripts[i].last_backup = Some(now);
                proof {
                    assert(self.settings.scripts@ == old(self).settings.scripts@.update(
                        i as int,
                        (Script { last_backup: Some(now), ..old(self).settings.scripts@[i as int] }),
                    ));
                    assert(self.settings.wf()) by {
                        assert(forall|k: int|
                            0 <= k < self.settings.scripts@.len() && k != i
                                ==> #[trigger] self.settings.scripts@[k] == old(
                                self,
                            ).settings.scripts@[k]);
                        assert(forall|k: int|
                            0 <= k < self.settings.scripts@.len()
                                ==> (#[trigger] self.settings.scripts@[k]).name@ == old(
                                self,
                            ).settings.scripts@[k].name@);
                    }
                }
                self.set_state(&name, ScriptState::WaitingForTime);
            },
            RunOutcome::ExitCode(code) => {
                let mut msg = self.settings.scripts[i].name.clone();
                msg.append(" failed with exit code ");
                push_dec_i32(&mut msg, code);
                self.set_state(&name, ScriptState::Failed(now, msg));
            },
            RunOutcome::Abnormal => {
                let mut msg = self.settings.scripts[i].name.clone();
                msg.append(" failed");
                self.set_state(&name, ScriptState::Failed(now, msg));
            },
            RunOutcome::SpawnError(e) => {
                self.set_state(&name, ScriptState::Failed(now, e));
            },
        }
    }
}

/// The first action offered after a run whose label matches, if any.
pub fn find_post_action<'a>(script: &'a Script, label: &str) -> (r: Option<&'a PostScriptAction>)
    ensures
        match r {
            Some(a) => exists|k: int|
                0 <= k < script.post_backup_actions@.len()
                    && *a == #[trigger] script.post_backup_actions@[k] && a.label@ == label@,
            None => forall|k: int|
                0 <= k < script.post_backup_actions@.len()
                    ==> (#[trigger] script.post_backup_actions@[k]).label@ != label@,
        },
{
    let n = script.post_backup_actions.len();
    for k in 0..n
        invariant
            n == script.post_backup_actions@.len(),
            forall|j: int|
                0 <= j < k ==> (#[trigger] script.post_backup_actions@[j]).label@ != label@,
    {
        if str_eq(script.post_backup_actions[k].label.as_str(), label) {
            return Some(&script.post_backup_actions[k]);
        }
    }
    None
}

} // verus!
