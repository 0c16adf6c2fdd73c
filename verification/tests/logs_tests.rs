use kwikbooks::error::DbCommandError;
use kwikbooks::ipc::{
    clear_request_id, end_log_lines, error_log_line, format_rid, json_logs_enabled, max_level_from_setting,
    ok_log_line, peek_request_id, set_request_id, slow_log_line, slow_threshold_ms,
    start_log_line, LogLevel, RequestContext,
};
use kwikbooks::log_view::{is_log_file_of, lines_wanted, recent_lines};
use kwikbooks::support::{home_needles, redact_paths, replace_all, support_bundle_text};
use kwikbooks::logs::{compare_log_lines, parse_level, parse_timestamp_sort_key, strip_ansi, tail_text, LogLine};

fn log_line(line: &str) -> LogLine {
    LogLine { source: "app".to_string(), level: "info".to_string(), line: line.to_string() }
}

#[test]
fn parse_timestamp_sort_key_reads_bracketed_prefix() {
    let line = "[2026-01-01][12:00:00][INFO] invoke_ok seq=1";
    assert_eq!(parse_timestamp_sort_key(line), Some("[2026-01-01][12:00:00]".to_string()));
}

#[test]
fn parse_timestamp_sort_key_rejects_lines_without_stamp() {
    assert_eq!(parse_timestamp_sort_key("plain text without a stamp"), None);
    assert_eq!(parse_timestamp_sort_key("[2026-01-01]"), None);
    assert_eq!(parse_timestamp_sort_key("[2026/01/01][12:00:00] x"), None);
}

#[test]
fn compare_log_lines_orders_by_timestamp() {
    let early = log_line("[2026-01-01][12:00:00][INFO] first");
    let late = log_line("[2026-01-01][12:00:01][INFO] second");
    assert_eq!(compare_log_lines(&early, &late), std::cmp::Ordering::Less);
}

#[test]
fn compare_log_lines_puts_stamped_lines_first_and_ties_equal() {
    let stamped = log_line("[2026-01-01][12:00:00][INFO] x");
    let bare = log_line("no stamp");
    assert_eq!(compare_log_lines(&stamped, &bare), std::cmp::Ordering::Less);
    assert_eq!(compare_log_lines(&bare, &stamped), std::cmp::Ordering::Greater);
    let same_a = log_line("[2026-01-01][12:00:00][INFO] a");
    let same_b = log_line("[2026-01-01][12:00:00][WARN] b");
    assert_eq!(compare_log_lines(&same_a, &same_b), std::cmp::Ordering::Equal);
    assert_eq!(compare_log_lines(&log_line("abc"), &log_line("abd")), std::cmp::Ordering::Less);
}

#[test]
fn parse_level_reads_bracketed_level() {
    let line = "[2026-01-01][12:00:00][WARN] something happened";
    assert_eq!(parse_level(line), "warn");
}

#[test]
fn parse_level_reads_json_level() {
    let line = r#"{"level":"ERROR","message":"boom"}"#;
    assert_eq!(parse_level(line), "error");
}

#[test]
fn parse_level_falls_back_to_unknown() {
    assert_eq!(parse_level("nothing to see"), "unknown");
    assert_eq!(parse_level("{not json"), "unknown");
    assert_eq!(parse_level("[x][TRACE] deep"), "trace");
}

#[test]
fn strip_ansi_removes_color_codes() {
    let raw = "\u{1b}[31merror\u{1b}[0m line";
    assert_eq!(strip_ansi(raw), "error line");
}

#[test]
fn strip_ansi_keeps_plain_text() {
    assert_eq!(strip_ansi("plain [text]"), "plain [text]");
    assert_eq!(strip_ansi(""), "");
}

#[test]
fn tail_lines_returns_last_entries() {
    let body = (0..20).map(|i| format!("line-{i}")).collect::<Vec<_>>().join("\n");
    let lines = tail_text(&body, false, 3);
    assert_eq!(lines, vec!["line-17", "line-18", "line-19"]);
}

#[test]
fn tail_text_drops_partial_first_line_and_blank_lines() {
    let buf = "tial\nfirst  \n\n\u{1b}[32msecond\u{1b}[0m\n";
    assert_eq!(tail_text(buf, true, 10), vec!["first", "second"]);
    assert_eq!(tail_text(buf, false, 10), vec!["tial", "first", "second"]);
    assert_eq!(tail_text(buf, false, 0), Vec::<String>::new());
}

#[test]
fn slow_threshold_default_positive() {
    assert!(slow_threshold_ms(None) >= 1);
}

#[test]
fn slow_threshold_reads_positive_setting_only() {
    assert_eq!(slow_threshold_ms(None), 1500);
    assert_eq!(slow_threshold_ms(Some(" 250 ")), 250);
    assert_eq!(slow_threshold_ms(Some("0")), 1500);
    assert_eq!(slow_threshold_ms(Some("fast")), 1500);
}

#[test]
fn max_level_reads_first_entry_or_defaults() {
    assert_eq!(max_level_from_setting("kwikbooks=warn,other=debug", false), LogLevel::Warn);
    assert_eq!(max_level_from_setting("  TRACE ", false), LogLevel::Trace);
    assert_eq!(max_level_from_setting("", true), LogLevel::Debug);
    assert_eq!(max_level_from_setting("bogus", false), LogLevel::Info);
    assert_eq!(max_level_from_setting("off", true), LogLevel::Off);
}

#[test]
fn json_logs_setting_accepts_truthy_words() {
    assert!(json_logs_enabled(Some("yes")));
    assert!(json_logs_enabled(Some(" 1 ")));
    assert!(!json_logs_enabled(Some("no")));
    assert!(!json_logs_enabled(None));
}

#[test]
fn request_id_round_trip() {
    let mut ctx = RequestContext::new();
    assert_eq!(peek_request_id(&ctx), None);
    set_request_id(&mut ctx, Some("req-7".to_string()));
    assert_eq!(peek_request_id(&ctx), Some("req-7".to_string()));
    clear_request_id(&mut ctx);
    assert_eq!(peek_request_id(&ctx), None);
}

#[test]
fn log_lines_have_expected_shape() {
    let rid = Some("r1".to_string());
    assert_eq!(format_rid(&rid), " rid=r1");
    assert_eq!(format_rid(&None), "");
    assert_eq!(start_log_line("company_get", 3, &rid), "invoke_start seq=3 rid=r1 command=company_get");
    assert_eq!(ok_log_line("company_get", 3, &None, 12), "invoke_ok seq=3 command=company_get elapsed_ms=12");
    assert_eq!(
        slow_log_line("x", 4, &None, 2000, 1500),
        "invoke_slow seq=4 command=x elapsed_ms=2000 threshold_ms=1500"
    );
}

#[test]
fn error_log_lines_carry_error_details() {
    let nf = DbCommandError::NotFound { entity: "invoice".to_string(), id: 9 };
    assert_eq!(
        error_log_line("unit_db", 1, &None, 5, &nf),
        "invoke_err seq=1 command=unit_db elapsed_ms=5 code=not_found entity=invoice id=9"
    );
    let v = DbCommandError::Validation { message: "nope".to_string() };
    assert_eq!(
        error_log_line("unit_err", 2, &None, 0, &v),
        "invoke_err seq=2 command=unit_err elapsed_ms=0 code=validation message=nope"
    );
    let m = DbCommandError::Migration { version: -3, message: "bad".to_string() };
    assert_eq!(
        error_log_line("m", 2, &None, 0, &m),
        "invoke_err seq=2 command=m elapsed_ms=0 code=migration version=-3 message=bad"
    );
    assert_eq!(nf.to_display_string(), "invoice 9 not found");
    assert_eq!(m.to_display_string(), "migration -3: bad");
    assert_eq!(nf.code(), "not_found");
}


#[test]
fn log_files_are_recognised_by_prefix() {
    assert!(is_log_file_of("kwikbooks", "kwikbooks"));
    assert!(is_log_file_of("kwikbooks.log", "kwikbooks"));
    assert!(is_log_file_of("kwikbooks.2026-01-01", "kwikbooks"));
    assert!(is_log_file_of("kwikbooks_old.log", "kwikbooks"));
    assert!(!is_log_file_of("webview.log", "kwikbooks"));
    assert!(!is_log_file_of("kwikbooksx", "kwikbooks"));
}

#[test]
fn lines_wanted_is_clamped() {
    assert_eq!(lines_wanted(None, 500), 500);
    assert_eq!(lines_wanted(Some(0), 500), 1);
    assert_eq!(lines_wanted(Some(9000), 500), 5000);
    assert_eq!(lines_wanted(Some(42), 500), 42);
}

#[test]
fn recent_lines_sorts_by_stamp_and_keeps_the_last() {
    let lines = vec![
        log_line("[2026-01-01][12:00:02][INFO] c"),
        log_line("no stamp"),
        log_line("[2026-01-01][12:00:00][INFO] a"),
        log_line("[2026-01-01][12:00:02][WARN] d"),
        log_line("[2026-01-01][12:00:01][INFO] b"),
    ];
    let all: Vec<String> = recent_lines(lines.clone(), 10).into_iter().map(|l| l.line).collect();
    assert_eq!(
        all,
        vec![
            "[2026-01-01][12:00:00][INFO] a",
            "[2026-01-01][12:00:01][INFO] b",
            "[2026-01-01][12:00:02][INFO] c",
            "[2026-01-01][12:00:02][WARN] d",
            "no stamp",
        ]
    );
    let last: Vec<String> = recent_lines(lines, 2).into_iter().map(|l| l.line).collect();
    assert_eq!(last, vec!["[2026-01-01][12:00:02][WARN] d", "no stamp"]);
}

#[test]
fn redact_paths_masks_userprofile() {
    let needles = home_needles(Some(r"C:\Users\example".to_string()), None, None, None);
    let raw = r"database path = C:\Users\example\AppData\kwikbooks.sqlite";
    let out = redact_paths(raw, &needles);
    assert!(out.contains("<REDACTED_HOME>"));
    assert!(!out.contains(r"C:\Users\example"));
    assert_eq!(out, r"database path = <REDACTED_HOME>\AppData\kwikbooks.sqlite");
}

#[test]
fn home_needles_follow_the_settings() {
    assert_eq!(
        home_needles(None, Some("/home/bob".to_string()), None, Some("bob".to_string())),
        vec!["/home/bob", r"\Users\bob", "/Users/bob", "/home/bob"]
    );
    assert_eq!(home_needles(Some(String::new()), None, Some("b".to_string()), None), Vec::<String>::new());
    assert_eq!(
        home_needles(None, None, Some("ann".to_string()), Some("bob".to_string())),
        vec![r"\Users\ann", "/Users/ann", "/home/ann"]
    );
}

#[test]
fn redaction_replaces_longest_needles_first() {
    let needles = vec!["/home/al".to_string(), "/home/alice".to_string(), "ab".to_string()];
    assert_eq!(redact_paths("/home/alice/x and /home/al/y ab", &needles), "<REDACTED_HOME>/x and <REDACTED_HOME>/y ab");
    let chars = |s: &str| s.chars().collect::<Vec<char>>();
    assert_eq!(replace_all(&chars("aaaa"), &chars("aa"), &chars("b")), chars("bb"));
    assert_eq!(replace_all(&chars("xyz"), &chars("q"), &chars("b")), chars("xyz"));
}

#[test]
fn support_bundle_has_header_context_and_lines() {
    let lines = vec![LogLine {
        source: "app".to_string(),
        level: "info".to_string(),
        line: "opened /home/bob/books.sqlite".to_string(),
    }];
    let needles = vec!["/home/bob".to_string()];
    let text = support_bundle_text(
        "unix_secs=5",
        "0.1.0",
        "linux",
        "x86_64",
        LogLevel::Info,
        1500,
        "/home/bob/logs",
        &Some("clicked save".to_string()),
        &lines,
        &needles,
    );
    assert_eq!(
        text,
        "# Kwikbooks offline support bundle\n# Paths and usernames are redacted. Nothing was transmitted off-device.\n\
generated_at=unix_secs=5\napp_version=0.1.0\nos=linux\narch=x86_64\nlog_level=Info\nslow_ms=1500\n\
log_dir=<REDACTED_HOME>/logs\nline_count=1\n\n\
## Client context (breadcrumbs / meta)\nclicked save\n\n\
## Log lines\n[app][info] opened <REDACTED_HOME>/books.sqlite\n"
    );
    let no_ctx = support_bundle_text("t", "v", "o", "a", LogLevel::Off, 1, "d", &Some("  ".to_string()), &[], &[]);
    assert_eq!(
        no_ctx,
        "# Kwikbooks offline support bundle\n# Paths and usernames are redacted. Nothing was transmitted off-device.\n\
generated_at=t\napp_version=v\nos=o\narch=a\nlog_level=Off\nslow_ms=1\nlog_dir=d\nline_count=0\n\n## Log lines\n"
    );
}

#[test]
fn end_lines_depend_on_outcome_and_duration() {
    let ok: Result<i32, DbCommandError> = Ok(7);
    assert_eq!(
        end_log_lines("unit_ok", 1, &None, 10, 1500, &ok),
        vec![(LogLevel::Info, "invoke_ok seq=1 command=unit_ok elapsed_ms=10".to_string())]
    );
    assert_eq!(
        end_log_lines("unit_ok", 2, &None, 1500, 1500, &ok),
        vec![
            (LogLevel::Info, "invoke_ok seq=2 command=unit_ok elapsed_ms=1500".to_string()),
            (LogLevel::Warn, "invoke_slow seq=2 command=unit_ok elapsed_ms=1500 threshold_ms=1500".to_string()),
        ]
    );
    let err: Result<(), DbCommandError> = Err(DbCommandError::Validation { message: "nope".to_string() });
    assert_eq!(
        end_log_lines("unit_err", 3, &Some("r".to_string()), 9999, 1, &err),
        vec![
            (LogLevel::Warn, "invoke_err seq=3 rid=r command=unit_err elapsed_ms=9999 code=validation message=nope".to_string()),
            (LogLevel::Warn, "invoke_slow seq=3 rid=r command=unit_err elapsed_ms=9999 threshold_ms=1".to_string()),
        ]
    );
    assert_eq!(
        end_log_lines("unit_err", 4, &None, 5, 1500, &err),
        vec![(LogLevel::Warn, "invoke_err seq=4 command=unit_err elapsed_ms=5 code=validation message=nope".to_string())]
    );
}
