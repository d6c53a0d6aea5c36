use backup_monitor::main_loop::{
    analyze, next_reminder_notification, next_wakeup, should_run_on_timeout, wakeup_timeout_ms,
    TrayStatus, WakeupReason,
};
use backup_monitor::manager::ScriptManager;
use backup_monitor::round_duration::{DAY_MS, HOUR_MS};
use backup_monitor::settings::{Script, Settings};

fn script_with_reminder(name: &str, interval: i64, reminder: i64, last_backup: i64) -> Script {
    Script {
        name: name.to_string(),
        icon_name: None,
        backup_script: "#!/bin/bash".to_string(),
        mount_paths: Vec::new(),
        interval,
        reminder: Some(reminder),
        post_backup_actions: Vec::new(),
        last_backup: Some(last_backup),
    }
}

#[test]
fn wakeup_prefers_running_scripts_on_tie() {
    let t: i64 = 1_700_000_000_000;
    assert_eq!(
        next_wakeup(Some(t), Some(t), None),
        Some((t, WakeupReason::RunScripts))
    );
    assert_eq!(
        next_wakeup(Some(t), Some(t), Some(t)),
        Some((t, WakeupReason::RunScripts))
    );
    assert_eq!(
        next_wakeup(None, Some(t), Some(t)),
        Some((t, WakeupReason::ShowReminder))
    );
}

#[test]
fn wakeup_picks_earliest_deadline() {
    let t: i64 = 1_700_000_000_000;
    assert_eq!(
        next_wakeup(Some(t + 2), Some(t + 1), Some(t)),
        Some((t, WakeupReason::UpdateUi))
    );
    assert_eq!(
        next_wakeup(Some(t + 2), Some(t), Some(t + 1)),
        Some((t, WakeupReason::ShowReminder))
    );
    assert_eq!(next_wakeup(None, None, None), None);
}

#[test]
fn reminder_throttled_by_last_notification() {
    let now: i64 = 1_700_000_000_000;
    let last_reminder = Some(now - 3 * HOUR_MS);

    let effective = next_reminder_notification(Some(now - HOUR_MS), &last_reminder);
    assert_eq!(effective, Some(now + HOUR_MS));
}

#[test]
fn overdue_reminder_is_not_shown_within_interval() {
    let now: i64 = 1_700_000_000_000;
    let settings = Settings {
        scripts: vec![script_with_reminder("backup", DAY_MS, 2 * HOUR_MS, now - 3 * HOUR_MS)],
        ..Settings::default()
    };
    let manager = ScriptManager::new(settings, "");
    let mut last_reminder = Some(now - 3 * HOUR_MS);

    let (tray, show_reminder, wakeup) = analyze(&manager, now, &mut last_reminder);

    assert!(!show_reminder);
    assert_eq!(last_reminder, Some(now - 3 * HOUR_MS));
    assert_eq!(tray.status, Some(TrayStatus::NeedsAttention));
    // The next displayed-minute change comes before the throttled reminder
    // deadline of one hour from now.
    assert_eq!(wakeup, Some((now + 1, WakeupReason::UpdateUi)));
}

#[test]
fn reminder_is_shown_once_interval_has_passed() {
    let now: i64 = 1_700_000_000_000;
    let settings = Settings {
        scripts: vec![script_with_reminder("backup", 30 * DAY_MS, 2 * HOUR_MS, now - 3 * HOUR_MS)],
        ..Settings::default()
    };
    let manager = ScriptManager::new(settings, "");

    let mut last_reminder = None;
    let (_, shown_first, _) = analyze(&manager, now, &mut last_reminder);
    assert!(shown_first);
    assert_eq!(last_reminder, Some(now));

    let soon = now + HOUR_MS;
    let (_, shown_soon, _) = analyze(&manager, soon, &mut last_reminder);
    assert!(!shown_soon);
    assert_eq!(last_reminder, Some(now));

    let later = now + 4 * HOUR_MS;
    let (_, shown_later, _) = analyze(&manager, later, &mut last_reminder);
    assert!(shown_later);
    assert_eq!(last_reminder, Some(later));
}

#[test]
fn analyze_reports_menu_and_tooltip() {
    let now: i64 = 1_700_000_000_000;
    let mut script = script_with_reminder("backup", DAY_MS, 30 * DAY_MS, now - 2 * HOUR_MS);
    script.icon_name = Some("drive".to_string());
    let settings = Settings {
        scripts: vec![script],
        ..Settings::default()
    };
    let manager = ScriptManager::new(settings, "");
    let mut last_reminder = None;

    let (tray, show_reminder, _) = analyze(&manager, now, &mut last_reminder);

    assert!(!show_reminder);
    assert_eq!(tray.status, Some(TrayStatus::Passive));
    assert_eq!(
        tray.tooltip.as_deref(),
        Some("backup:\nLast backup was 2h ago\nNext backup in 22h")
    );
    assert_eq!(
        tray.scripts,
        Some(vec![("backup".to_string(), Some("drive".to_string()))])
    );
}

#[test]
fn timer_expiry_runs_scripts_only_for_run_wakeups() {
    let t: i64 = 1_700_000_000_000;
    assert!(should_run_on_timeout(&None));
    assert!(should_run_on_timeout(&Some((t, WakeupReason::RunScripts))));
    assert!(!should_run_on_timeout(&Some((t, WakeupReason::ShowReminder))));
    assert!(!should_run_on_timeout(&Some((t, WakeupReason::UpdateUi))));
}

#[test]
fn wait_timeout_is_clamped_to_zero() {
    let now: i64 = 1_700_000_000_000;
    assert_eq!(wakeup_timeout_ms(now, now + 1_500), 1_500);
    assert_eq!(wakeup_timeout_ms(now, now), 0);
    assert_eq!(wakeup_timeout_ms(now, now - 1_500), 0);
}

#[test]
fn wakeup_reason_labels() {
    assert_eq!(WakeupReason::RunScripts.label(), "run scripts");
    assert_eq!(WakeupReason::ShowReminder.label(), "show reminder");
    assert_eq!(WakeupReason::UpdateUi.label(), "update ui");
}
