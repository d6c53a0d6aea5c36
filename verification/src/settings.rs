use crate::valid_dur;
use crate::valid_ts;
use vstd::prelude::*;
use vstd::string::StringExecFns;

verus! {

/// One action offered to the user after a backup run finishes.
#[derive(Debug)]
pub struct PostScriptAction {
    /// Label shown on the notification button.
    pub label: String,
    /// The runnable payload behind the button, as inline script text.
    pub script: String,
}

/// One configured backup job.
#[derive(Debug)]
pub struct Script {
    /// Unique name of the job; job state is keyed by it.
    pub name: String,
    /// Icon for the job's manual-run menu entry.
    pub icon_name: Option<String>,
    /// The runnable backup payload, as inline script text.
    pub backup_script: String,
    /// Paths that must all be mounted before the job may run; empty means
    /// no mount dependency.
    pub mount_paths: Vec<String>,
    /// Milliseconds between two runs.
    pub interval: i64,
    /// If set, milliseconds after the last run at which to start nagging.
    pub reminder: Option<i64>,
    /// Actions offered to the user after a run completes.
    pub post_backup_actions: Vec<PostScriptAction>,
    /// When the job last ran successfully, in milliseconds since the epoch.
    pub last_backup: Option<i64>,
}

impl Script {
    /// The job's durations and timestamps are in range for schedule
    /// arithmetic.
    pub open spec fn wf(self) -> bool {
        &&& valid_dur(self.interval as int)
        &&& (self.reminder is Some ==> valid_dur(self.reminder->0 as int))
        &&& (self.last_backup is Some ==> valid_ts(self.last_backup->0 as int))
    }
}

/// The configuration snapshot the scheduler works from.
#[derive(Debug)]
pub struct Settings {
    /// Icon of the tray entry and of notifications.
    pub icon_name: String,
    /// Title of the tray entry and of notifications.
    pub title: String,
    /// The configured backup jobs.
    pub scripts: Vec<Script>,
    /// Whether the program registers itself to start with the session.
    pub autostart: bool,
}

/// No two of the given jobs share a name.
pub open spec fn spec_unique_names(scripts: Seq<Script>) -> bool {
    forall|i: int, j: int|
        0 <= i < j < scripts.len() ==> scripts[i].name@ != scripts[j].name@
}

impl Settings {
    /// Every job is in range for schedule arithmetic and job names are
    /// unique, as the loader guarantees.
    pub open spec fn wf(self) -> bool {
        &&& forall|i: int| 0 <= i < self.scripts@.len() ==> (#[trigger] self.scripts@[i]).wf()
        &&& spec_unique_names(self.scripts@)
    }
}

impl Default for Settings {
    /// The configuration written on first start: no jobs, autostart off.
    fn default() -> (r: Settings)
        ensures
            r.icon_name@ == "backup"@,
            r.title@ == "Backup"@,
            r.scripts@.len() == 0,
            !r.autostart,
            r.wf(),
    {
        Settings {
            icon_name: String::from_str("backup"),
            title: String::from_str("Backup"),
            scripts: Vec::new(),
            autostart: false,
        }
    }
}

/// Whether no two jobs share a name; the loader treats duplicates as a
/// fatal configuration error.
pub fn unique_names(scripts: &Vec<Script>) -> (r: bool)
    ensures
        r == spec_unique_names(scripts@),
{
    let n = scripts.len();
    for i in 0..n
        invariant
            n == scripts@.len(),
            forall|k: int, l: int|
                0 <= k < i && k < l < n ==> scripts@[k].name@ != scripts@[l].name@,
    {
        for j in (i + 1)..n
            invariant
                n == scripts@.len(),
                i < n,
                forall|k: int, l: int|
                    0 <= k < i && k < l < n ==> scripts@[k].name@ != scripts@[l].name@,
                forall|l: int| i < l < j ==> scripts@[i as int].name@ != scripts@[l].name@,
        {
            if scripts[i].name == scripts[j].name {
                return false;
            }
        }
    }
    true
}

} // verus!
