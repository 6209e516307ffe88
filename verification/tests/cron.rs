use mihoro::cron::{
    auto_update_decision, crontab_path, find_mihoro_entry, format_datetime,
    generate_cron_line, generate_managed_block, interpret_crontab_listing,
    merge_with_mihoro_block, resolve_runtime_root, strip_mihoro_block, AutoUpdateDecision,
    CronError, MIHORO_CRON_END_MARKER, MIHORO_CRON_START_MARKER,
};

const BIN: &str = "/usr/local/bin/mihoro";

#[test]
fn test_generate_cron_line() {
    let line = generate_cron_line(12, BIN);
    assert!(line.contains("0 */12 * * *"));
    assert!(line.contains("update"));
}

#[test]
fn test_generate_managed_block() {
    let block = generate_managed_block(6, BIN);
    assert!(block.contains(MIHORO_CRON_START_MARKER));
    assert!(block.contains("0 */6 * * *"));
    assert!(block.contains(MIHORO_CRON_END_MARKER));
}

#[test]
fn test_format_datetime_from_unix_secs() {
    let formatted = format_datetime(1_700_000_000);
    assert!(!formatted.is_empty());
    assert!(formatted.contains('-'));
    assert!(formatted.contains(':'));
}

#[test]
fn test_resolve_runtime_root_macos_uses_tmpdir() {
    let root = resolve_runtime_root("macos", Some("/run/user/1000"), Some("/var/tmp"), 1000);
    assert_eq!(root, "/var/tmp");
}

#[test]
fn test_resolve_runtime_root_macos_fallback_to_tmp() {
    let root = resolve_runtime_root("macos", None, None, 1000);
    assert_eq!(root, "/tmp");
}

#[test]
fn test_strip_mihoro_block_keeps_unrelated_entries() {
    let input = "MAILTO=user@example.com\n# >>> mihoro auto-update >>>\n0 */12 * * * /usr/bin/mihoro update\n# <<< mihoro auto-update <<<\n0 1 * * * /usr/bin/backup\n";
    let (cleaned, removed) = strip_mihoro_block(input);
    assert!(removed);
    assert!(cleaned.contains("MAILTO=user@example.com"));
    assert!(cleaned.contains("0 1 * * * /usr/bin/backup"));
    assert!(!cleaned.contains("mihoro update"));
}

#[test]
fn test_merge_with_mihoro_block_is_idempotent() {
    let block = generate_managed_block(12, BIN);
    let first = merge_with_mihoro_block("0 1 * * * /usr/bin/backup\n", &block);
    let second = merge_with_mihoro_block(&first, &block);
    assert_eq!(first, second);
}

#[test]
fn test_find_mihoro_entry_from_block() {
    let block = generate_managed_block(12, BIN);
    let content = format!("0 1 * * * /usr/bin/backup\n\n{block}");
    let entry = find_mihoro_entry(&content);
    assert!(entry.is_some());
    assert!(entry.unwrap_or_default().contains("mihoro"));
}

#[test]
fn cron_line_exact_text() {
    assert_eq!(generate_cron_line(12, BIN), "0 */12 * * * /usr/local/bin/mihoro update");
    assert_eq!(generate_cron_line(0, "m"), "0 */0 * * * m update");
    assert_eq!(generate_cron_line(65535, "m"), "0 */65535 * * * m update");
}

#[test]
fn managed_block_exact_text() {
    assert_eq!(
        generate_managed_block(6, BIN),
        "# >>> mihoro auto-update >>>\n0 */6 * * * /usr/local/bin/mihoro update\n# <<< mihoro auto-update <<<\n"
    );
}

#[test]
fn runtime_root_on_linux() {
    assert_eq!(resolve_runtime_root("linux", Some("/run/user/42"), Some("/var/tmp"), 7), "/run/user/42");
    assert_eq!(resolve_runtime_root("linux", Some(""), None, 1000), "/run/user/1000");
    assert_eq!(resolve_runtime_root("linux", None, None, 0), "/run/user/0");
    assert_eq!(resolve_runtime_root("macos", None, Some(""), 5), "/tmp");
}

#[test]
fn crontab_path_joins_file_name() {
    assert_eq!(crontab_path("linux", Some("/run/user/1000"), None, 1), "/run/user/1000/mihoro-crontab");
    assert_eq!(crontab_path("macos", None, Some("/var/folders/x/"), 1), "/var/folders/x/mihoro-crontab");
}

#[test]
fn strip_exact_output() {
    let input = "a\n# >>> mihoro auto-update >>>\nx\n# <<< mihoro auto-update <<<\nb\n";
    assert_eq!(strip_mihoro_block(input), ("a\nb\n".to_string(), true));
    assert_eq!(strip_mihoro_block(""), (String::new(), false));
    assert_eq!(strip_mihoro_block("a\r\nb"), ("a\nb\n".to_string(), false));
    // an unterminated block is kept
    let open = "# >>> mihoro auto-update >>>\nx\n";
    assert_eq!(strip_mihoro_block(open), (open.to_string(), false));
    // markers are recognised with surrounding whitespace
    let spaced = "  # >>> mihoro auto-update >>>  \nx\n\t# <<< mihoro auto-update <<<\nkeep";
    assert_eq!(strip_mihoro_block(spaced), ("keep\n".to_string(), true));
    // every block goes
    let two = "# >>> mihoro auto-update >>>\n# <<< mihoro auto-update <<<\nmid\n# >>> mihoro auto-update >>>\ny\n# <<< mihoro auto-update <<<\n";
    assert_eq!(strip_mihoro_block(two), ("mid\n".to_string(), true));
}

#[test]
fn merge_into_empty_crontab_is_the_block() {
    let block = generate_managed_block(3, BIN);
    assert_eq!(merge_with_mihoro_block("", &block), block);
    assert_eq!(merge_with_mihoro_block("   \n\n", &block), block);
    assert_eq!(
        merge_with_mihoro_block("a\n\n\n", &block),
        format!("a\n\n{block}")
    );
}

#[test]
fn merge_replaces_an_old_block() {
    let old = generate_managed_block(3, BIN);
    let new = generate_managed_block(5, BIN);
    let installed = merge_with_mihoro_block(&format!("a\n{old}b\n"), &new);
    assert_eq!(installed, format!("a\nb\n\n{new}"));
    assert_eq!(find_mihoro_entry(&installed), Some(generate_cron_line(5, BIN)));
}

#[test]
fn disable_after_enable_leaves_no_entry() {
    let block = generate_managed_block(8, BIN);
    let installed = merge_with_mihoro_block("0 1 * * * /usr/bin/backup\n", &block);
    let (removed, had) = strip_mihoro_block(&installed);
    assert!(had);
    assert_eq!(find_mihoro_entry(&removed), None);
    assert_eq!(removed, "0 1 * * * /usr/bin/backup\n\n");
}

#[test]
fn find_entry_cases() {
    assert_eq!(find_mihoro_entry(""), None);
    assert_eq!(find_mihoro_entry("0 1 * * * x\n"), None);
    let empty_block = "# >>> mihoro auto-update >>>\n\n# <<< mihoro auto-update <<<\n";
    assert_eq!(find_mihoro_entry(empty_block), None);
    let later = format!("{empty_block}# >>> mihoro auto-update >>>\n   entry  \n# <<< mihoro auto-update <<<\n");
    assert_eq!(find_mihoro_entry(&later), Some("entry".to_string()));
}

#[test]
fn auto_update_interval_bounds() {
    assert_eq!(auto_update_decision(0), Ok(AutoUpdateDecision::Disable));
    assert_eq!(auto_update_decision(1), Ok(AutoUpdateDecision::Enable(1)));
    assert_eq!(auto_update_decision(24), Ok(AutoUpdateDecision::Enable(24)));
    assert_eq!(auto_update_decision(25), Err(CronError::IntervalOutOfRange));
    assert_eq!(
        CronError::IntervalOutOfRange.message(),
        "Auto-update interval must be between 1 and 24 hours"
    );
}

#[test]
fn crontab_listing_outcomes() {
    assert_eq!(interpret_crontab_listing(true, "0 1 * * * x\n", "ignored"), Ok("0 1 * * * x\n".to_string()));
    assert_eq!(interpret_crontab_listing(false, "", "No crontab for alice"), Ok(String::new()));
    assert_eq!(interpret_crontab_listing(false, "", "crontab: file DOES NOT EXIST"), Ok(String::new()));
    let err = interpret_crontab_listing(false, "", "  permission denied \n");
    assert_eq!(err, Err(CronError::ListFailed("permission denied".to_string())));
    assert_eq!(
        err.unwrap_err().message(),
        "Failed to list current crontab: permission denied"
    );
    assert_eq!(
        interpret_crontab_listing(false, "", " Permission DENIED\n"),
        Err(CronError::ListFailed("permission denied".to_string()))
    );
}

#[test]
fn datetime_shape() {
    let s = format_datetime(0);
    assert_eq!(s.len(), 19);
    assert_eq!(&s[4..5], "-");
    assert_eq!(&s[13..14], ":");
}

#[test]
fn datetime_follows_the_timestamp() {
    // 1_700_000_000 is 2023-11-14 22:13:20 UTC; any offset below a day keeps the
    // date within one day of it.
    let s = format_datetime(1_700_000_000);
    assert!(
        s.starts_with("2023-11-13 ") || s.starts_with("2023-11-14 ") || s.starts_with("2023-11-15 "),
        "{}",
        s
    );
    let t = format_datetime(951_825_600);
    assert!(
        t.starts_with("2000-02-28 ") || t.starts_with("2000-02-29 ") || t.starts_with("2000-03-01 "),
        "{}",
        t
    );
}

#[test]
fn stripping_twice_is_stripping_once() {
    let input = "MAILTO=x\n# >>> mihoro auto-update >>>\n0 */3 * * * /bin/mihoro update\n# <<< mihoro auto-update <<<\n  \n0 1 * * * /usr/bin/backup";
    let (once, removed) = strip_mihoro_block(input);
    assert!(removed);
    assert_eq!(once, "MAILTO=x\n  \n0 1 * * * /usr/bin/backup\n");
    assert_eq!(strip_mihoro_block(&once), (once.clone(), false));
}

#[test]
fn merging_any_block_twice_is_merging_once() {
    let block = "# >>> mihoro auto-update >>>\n@reboot /opt/other job\n# <<< mihoro auto-update <<<\n";
    let first = merge_with_mihoro_block("0 1 * * * /usr/bin/backup\n\n\n", block);
    assert_eq!(first, format!("0 1 * * * /usr/bin/backup\n\n{}", block));
    assert_eq!(merge_with_mihoro_block(&first, block), first);
}
