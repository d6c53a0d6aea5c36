use backup_monitor::manager::{find_post_action, RunDecision, RunOutcome, ScriptManager};
use backup_monitor::round_duration::{DAY_MS, HOUR_MS, MINUTE_MS};
use backup_monitor::schedule::ScriptState;
use backup_monitor::settings::{PostScriptAction, Script, Settings};
use backup_monitor::RETRY_INTERVAL_MS;

fn script(name: &str, interval: i64, last_backup: Option<i64>, mount_paths: &[&str]) -> Script {
    Script {
        name: name.to_string(),
        icon_name: None,
        backup_script: "#!/bin/bash".to_string(),
        mount_paths: mount_paths.iter().map(|p| p.to_string()).collect(),
        interval,
        reminder: None,
        post_backup_actions: Vec::new(),
        last_backup,
    }
}

fn settings_with(scripts: Vec<Script>) -> Settings {
    Settings {
        scripts,
        ..Settings::default()
    }
}

#[test]
fn set_mounts() {
    let settings = Settings::default();
    let mut manager = ScriptManager::new(settings, "");

    manager.set_mounts(
        "/dev/nvme0n1p2 / btrfs rw,relatime,ssd,discard=async,space_cache=v2,subvolid=403,subvol=/@/.snapshots/138/snapshot 0 0\n\
         devtmpfs /dev devtmpfs rw,nosuid,size=4096k,nr_inodes=8192558,mode=755,inode64 0 0\n\
         tmpfs /dev/shm tmpfs rw,nosuid,nodev,inode64 0 0\n",
    );

    assert!(manager.mounts.contains(&"/".to_string()));
    assert!(manager.mounts.contains(&"/dev/shm".to_string()));
    assert!(!manager.mounts.contains(&"/does-not-exist".to_string()));
}

#[test]
fn overdue_job_is_started_by_run() {
    let now: i64 = 1_700_000_000_000;
    let settings = settings_with(vec![script("backup", DAY_MS, Some(now - 25 * HOUR_MS), &[])]);
    let mut manager = ScriptManager::new(settings, "");

    assert_eq!(manager.next_backup(now), Some(now - HOUR_MS));

    let decision = manager.begin_run(now, 0, None);
    assert_eq!(decision, RunDecision::Started);
    assert!(matches!(manager.states[0].1, ScriptState::Running));
}

#[test]
fn missing_mount_blocks_job() {
    let now: i64 = 1_700_000_000_000;
    let settings = settings_with(vec![script("backup", DAY_MS, None, &["/mnt/x"])]);
    let mut manager = ScriptManager::new(settings, "");

    let decision = manager.begin_run(now, 0, None);
    assert_eq!(decision, RunDecision::Blocked);
    match &manager.states[0].1 {
        ScriptState::WaitingForPaths(missing) => {
            assert_eq!(missing, &vec!["/mnt/x".to_string()]);
        }
        other => panic!("unexpected state {:?}", other),
    }
}

#[test]
fn failed_job_retries_after_one_hour() {
    let failed_at: i64 = 1_700_000_000_000;
    let settings = settings_with(vec![script("backup", DAY_MS, Some(failed_at - DAY_MS), &[])]);
    let mut manager = ScriptManager::new(settings, "");

    let decision = manager.begin_run(failed_at, 0, None);
    assert_eq!(decision, RunDecision::Started);
    manager.record_result(failed_at, 0, RunOutcome::Abnormal);

    let now = failed_at + 30 * MINUTE_MS;
    let next = manager.next_backup(now);
    assert_eq!(next, Some(failed_at + RETRY_INTERVAL_MS));
    assert!(next.unwrap() > now);
}

#[test]
fn success_records_last_backup() {
    let now: i64 = 1_700_000_000_000;
    let settings = settings_with(vec![script("backup", DAY_MS, None, &[])]);
    let mut manager = ScriptManager::new(settings, "");

    assert_eq!(manager.begin_run(now, 0, None), RunDecision::Started);
    manager.record_result(now, 0, RunOutcome::Success);

    assert_eq!(manager.settings.scripts[0].last_backup, Some(now));
    assert!(matches!(manager.states[0].1, ScriptState::WaitingForTime));
    assert_eq!(manager.next_backup(now), Some(now + DAY_MS));
}

#[test]
fn exit_code_failure_message() {
    let now: i64 = 1_700_000_000_000;
    let settings = settings_with(vec![script("backup", DAY_MS, None, &[])]);
    let mut manager = ScriptManager::new(settings, "");

    assert_eq!(manager.begin_run(now, 0, None), RunDecision::Started);
    manager.record_result(now, 0, RunOutcome::ExitCode(3));
    match &manager.states[0].1 {
        ScriptState::Failed(at, message) => {
            assert_eq!(*at, now);
            assert_eq!(message, "backup failed with exit code 3");
        }
        other => panic!("unexpected state {:?}", other),
    }
}

#[test]
fn spawn_error_failure_message() {
    let now: i64 = 1_700_000_000_000;
    let settings = settings_with(vec![script("backup", DAY_MS, None, &[])]);
    let mut manager = ScriptManager::new(settings, "");

    assert_eq!(manager.begin_run(now, 0, None), RunDecision::Started);
    manager.record_result(
        now,
        0,
        RunOutcome::SpawnError("No such file or directory (os error 2)".to_string()),
    );
    match &manager.states[0].1 {
        ScriptState::Failed(at, message) => {
            assert_eq!(*at, now);
            assert_eq!(message, "No such file or directory (os error 2)");
        }
        other => panic!("unexpected state {:?}", other),
    }
}

#[test]
fn manual_target_runs_job_that_is_not_due() {
    let now: i64 = 1_700_000_000_000;
    let settings = settings_with(vec![
        script("first", DAY_MS, Some(now - HOUR_MS), &[]),
        script("second", DAY_MS, Some(now - HOUR_MS), &[]),
    ]);
    let mut manager = ScriptManager::new(settings, "");

    assert_eq!(manager.begin_run(now, 0, Some("second")), RunDecision::NotDue);
    assert_eq!(manager.begin_run(now, 1, Some("second")), RunDecision::Started);
    assert!(matches!(manager.states[0].1, ScriptState::Running));
    assert_eq!(manager.states[0].0, "second");
}

#[test]
fn blocked_job_runs_after_mount_appears() {
    let now: i64 = 1_700_000_000_000;
    let settings = settings_with(vec![script("backup", DAY_MS, None, &["/mnt/x"])]);
    let mut manager = ScriptManager::new(settings, "");

    assert_eq!(manager.begin_run(now, 0, None), RunDecision::Blocked);
    // A blocked job contributes no schedule time: the mounts-changed event
    // triggers the next run attempt instead.
    assert_eq!(manager.next_backup(now), None);

    manager.set_mounts("/dev/sdb1 /mnt/x ext4 rw 0 0\n");
    assert_eq!(manager.begin_run(now, 0, None), RunDecision::Started);
}

#[test]
fn tooltip_renders_job_lines() {
    let now: i64 = 1_700_000_000_000;
    let settings = settings_with(vec![script("backup", DAY_MS, Some(now - 2 * HOUR_MS), &[])]);
    let manager = ScriptManager::new(settings, "");

    assert_eq!(
        manager.tooltip(now),
        "backup:\nLast backup was 2h ago\nNext backup in 22h"
    );
}

#[test]
fn tooltip_placeholder_without_jobs() {
    let manager = ScriptManager::new(Settings::default(), "");
    assert_eq!(manager.tooltip(0), "No backup scripts configured");
}

#[test]
fn tooltip_shows_missing_folders_and_failures() {
    let now: i64 = 1_700_000_000_000;
    let settings = settings_with(vec![
        script("docs", DAY_MS, None, &["/mnt/a", "/mnt/b"]),
        script("mail", DAY_MS, None, &[]),
    ]);
    let mut manager = ScriptManager::new(settings, "");

    assert_eq!(manager.begin_run(now, 0, None), RunDecision::Blocked);
    assert_eq!(manager.begin_run(now, 1, None), RunDecision::Started);
    manager.record_result(now, 1, RunOutcome::ExitCode(7));

    assert_eq!(
        manager.tooltip(now),
        "docs:\nNever backed up before\nWaiting for folders \"/mnt/a\", \"/mnt/b\" to be mounted\n\n\
         mail:\nNever backed up before\nFailed: mail failed with exit code 7"
    );
}

#[test]
fn negative_exit_code_is_rendered() {
    let now: i64 = 1_700_000_000_000;
    let settings = settings_with(vec![script("backup", DAY_MS, None, &[])]);
    let mut manager = ScriptManager::new(settings, "");

    assert_eq!(manager.begin_run(now, 0, None), RunDecision::Started);
    manager.record_result(now, 0, RunOutcome::ExitCode(-5));
    match &manager.states[0].1 {
        ScriptState::Failed(_, message) => {
            assert_eq!(message, "backup failed with exit code -5");
        }
        other => panic!("unexpected state {:?}", other),
    }
}

#[test]
fn post_action_found_by_label() {
    let mut job = script("backup", DAY_MS, None, &[]);
    job.post_backup_actions = vec![
        PostScriptAction {
            label: "Unmount".to_string(),
            script: "#!/bin/bash\numount /mnt/backup".to_string(),
        },
        PostScriptAction {
            label: "Eject".to_string(),
            script: "#!/bin/bash\neject".to_string(),
        },
    ];

    let action = find_post_action(&job, "Eject").unwrap();
    assert_eq!(action.script, "#!/bin/bash\neject");
    assert!(find_post_action(&job, "Shred").is_none());
}
