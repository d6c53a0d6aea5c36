use backup_monitor::mounts::parse_mounts;

#[test]
fn parse_mounts_takes_second_field() {
    let parsed = parse_mounts("proc /proc proc rw 0 0\ntmpfs /tmp tmpfs rw 0 0\n");
    assert_eq!(parsed, vec!["/proc".to_string(), "/tmp".to_string()]);
}

#[test]
fn parse_mounts_ignores_malformed_lines() {
    let parsed = parse_mounts("just-one-field\n\n   \nproc /proc proc rw 0 0\n");
    assert_eq!(parsed, vec!["/proc".to_string()]);
}

#[test]
fn parse_mounts_deduplicates() {
    let parsed = parse_mounts("a /same x\nb /same y\nc /other z\n");
    assert_eq!(parsed, vec!["/same".to_string(), "/other".to_string()]);
}

#[test]
fn parse_mounts_strips_carriage_returns() {
    let parsed = parse_mounts("proc /proc proc rw 0 0\r\ntmpfs /tmp\r");
    assert_eq!(parsed, vec!["/proc".to_string(), "/tmp".to_string()]);
}

#[test]
fn parse_mounts_handles_missing_final_newline() {
    let parsed = parse_mounts("proc /proc proc rw 0 0");
    assert_eq!(parsed, vec!["/proc".to_string()]);
}

#[test]
fn parse_mounts_empty_input() {
    let parsed = parse_mounts("");
    assert!(parsed.is_empty());
}
