use nexus_launcher::crash::{
    crash_log_dir_in, crash_log_file_name, crash_report_lines, instance_name_of, is_error_line,
    logs_to_prune, LineTail, MAX_CRASH_LOGS, STDERR_CAP, STDOUT_CAP,
};

#[test]
fn tail_keeps_the_last_lines() {
    let mut t = LineTail::new(3);
    assert!(t.is_empty());
    for i in 0..7 {
        t.push(format!("line {}", i));
        assert!(t.len() <= 3);
    }
    assert_eq!(t.lines(), &vec!["line 4".to_string(), "line 5".to_string(), "line 6".to_string()]);
    let mut u = LineTail::new(STDOUT_CAP);
    u.push("only".to_string());
    assert_eq!(u.lines(), &vec!["only".to_string()]);
    assert_eq!((STDERR_CAP, STDOUT_CAP), (500, 100));
}

#[test]
fn error_lines() {
    assert!(is_error_line("java.lang.NullPointerException: boom"));
    assert!(is_error_line("[Render thread/FATAL]: oh no"));
    assert!(is_error_line("[main/ERROR]: failed"));
    assert!(is_error_line("Game crashed!"));
    assert!(!is_error_line("[main/INFO]: Loading"));
    assert!(!is_error_line("Crash report saved"));
}

#[test]
fn crash_report_layout() {
    let lines = crash_report_lines(
        "inst",
        "exit status: 1",
        1700000000,
        &vec!["err a".to_string(), "err b".to_string()],
        &vec!["out".to_string()],
    );
    let expected = vec![
        "=== Crash Report ===",
        "Instance: inst",
        "Exit code: exit status: 1",
        "Timestamp: 1700000000",
        "",
        "--- Last 2 stderr lines ---",
        "err a",
        "err b",
        "",
        "--- Last 1 stdout lines ---",
        "out",
    ];
    assert_eq!(lines, expected);
    let bare = crash_report_lines("i", "signal: 9", 0, &vec![], &vec![]);
    assert_eq!(bare, vec!["=== Crash Report ===", "Instance: i", "Exit code: signal: 9", "Timestamp: 0", ""]);
}

#[test]
fn crash_log_names() {
    assert_eq!(crash_log_dir_in("/h/.minecraft"), "/h/.minecraft/crash_logs");
    assert_eq!(crash_log_file_name("inst", 42), "inst-42.log");
    assert_eq!(instance_name_of("/h/.minecraft/clients/inst"), "inst");
    assert_eq!(instance_name_of("/h/.minecraft/clients/inst/"), "inst");
    assert_eq!(instance_name_of("/h/.minecraft/clients/inst/."), "inst");
    assert_eq!(instance_name_of("/"), "unknown");
    assert_eq!(instance_name_of("a/.."), "unknown");
    assert_eq!(instance_name_of(""), "unknown");
}

#[test]
fn pruning_keeps_the_newest() {
    let few: Vec<Option<i128>> = (0..MAX_CRASH_LOGS as i128).map(Some).collect();
    assert!(logs_to_prune(&few).is_empty());
    // 23 reports: the 3 oldest go, oldest first; unknown times count as oldest
    let mut times: Vec<Option<i128>> = (0..23).map(|i| Some(1000 - i as i128)).collect();
    times[5] = None;
    times[10] = Some(978);
    assert_eq!(logs_to_prune(&times), vec![5, 10, 22]);
    // equal times keep the listing order
    let mut same: Vec<Option<i128>> = vec![Some(7); 22];
    same[3] = Some(-5);
    assert_eq!(logs_to_prune(&same), vec![3, 0]);
}
