use alauncher::java::{detect_java_version, find_java_executable, find_java_installations, get_java_search_paths, JavaCandidate};
use alauncher::logger::{error_message, format_log_line, get_latest_log_path, latest_pointer_path, log_dir_path, log_file_name_exec, log_header_lines, panic_message};
use alauncher::platform::Platform;

#[test]
fn version_from_quoted_report() {
    let out = "openjdk version \"17.0.1\" 2021-10-19\nOpenJDK Runtime Environment\n";
    assert_eq!(detect_java_version(out), "17.0.1");
}

#[test]
fn version_from_line_fallback() {
    let out = "no quotes here\n  java version 1.8 is old  \nlast line";
    assert_eq!(detect_java_version(out), "java version 1.8 is old");
}

#[test]
fn version_unknown_when_nothing_matches() {
    assert_eq!(detect_java_version("nothing useful"), "Unknown");
    assert_eq!(detect_java_version(""), "Unknown");
}

#[test]
fn version_single_quote_falls_back() {
    let out = "odd \" output without second quote";
    assert_eq!(detect_java_version(out), "Unknown");
}

#[test]
fn linux_search_paths() {
    let paths = get_java_search_paths(Platform::Linux, &None, &None);
    assert_eq!(
        paths,
        vec![
            "/usr/lib/jvm/default-java".to_string(),
            "/usr/lib/jvm/java-17-openjdk".to_string(),
            "/usr/lib/jvm/java-21-openjdk".to_string(),
            "/usr/lib/jvm/java-11-openjdk".to_string(),
            "/usr/java/default".to_string(),
            "/opt/java".to_string(),
        ]
    );
}

#[test]
fn windows_search_paths_include_program_files() {
    let paths = get_java_search_paths(
        Platform::Windows,
        &Some("C:\\PF".to_string()),
        &None,
    );
    assert_eq!(
        paths,
        vec![
            "C:\\PF\\Java".to_string(),
            "C:\\Program Files\\Java".to_string(),
            "C:\\Program Files (x86)\\Java".to_string(),
        ]
    );
}

#[test]
fn executable_candidates() {
    let c = find_java_executable(&"/opt/java".to_string(), Platform::Linux);
    assert_eq!(c, vec!["/opt/java/bin/java".to_string(), "/opt/java/java".to_string()]);
    let w = find_java_executable(&"C:\\J".to_string(), Platform::Windows);
    assert_eq!(w, vec!["C:\\J\\bin\\java.exe".to_string(), "C:\\J\\java.exe".to_string()]);
}

#[test]
fn installations_from_probes() {
    let candidates = vec![
        JavaCandidate { path: "/a".to_string(), exists: true, version: "17".to_string() },
        JavaCandidate { path: "/b".to_string(), exists: false, version: "".to_string() },
        JavaCandidate { path: "/c".to_string(), exists: true, version: "21".to_string() },
    ];
    let found = find_java_installations(&candidates, None);
    assert_eq!(found.len(), 2);
    assert_eq!(found[0].path, "/a");
    assert_eq!(found[0].version, "17");
    assert!(found[0].is_64_bit);
    assert_eq!(found[1].path, "/c");
}

#[test]
fn java_home_appended_unless_duplicate() {
    let candidates = vec![JavaCandidate {
        path: "/a".to_string(),
        exists: true,
        version: "17".to_string(),
    }];
    let home_new = JavaCandidate { path: "/home-jdk".to_string(), exists: true, version: String::new() };
    let found = find_java_installations(&candidates, Some(&home_new));
    assert_eq!(found.len(), 2);
    assert_eq!(found[1].path, "/home-jdk");
    assert_eq!(found[1].version, "JAVA_HOME");

    let home_dup = JavaCandidate { path: "/a".to_string(), exists: true, version: String::new() };
    let found2 = find_java_installations(&candidates, Some(&home_dup));
    assert_eq!(found2.len(), 1);

    let home_missing = JavaCandidate { path: "/gone".to_string(), exists: false, version: String::new() };
    let found3 = find_java_installations(&candidates, Some(&home_missing));
    assert_eq!(found3.len(), 1);
}

#[test]
fn log_paths() {
    assert_eq!(
        log_dir_path(&"/home/u/.local/share".to_string(), Platform::Linux),
        "/home/u/.local/share/ALauncher/logs"
    );
    assert_eq!(
        log_dir_path(&"C:\\Users\\u\\AppData\\Local".to_string(), Platform::Windows),
        "C:\\Users\\u\\AppData\\Local\\ALauncher\\logs"
    );
    assert_eq!(log_file_name_exec("2024-01-02_03-04-05"), "alauncher_2024-01-02_03-04-05.log");
    assert_eq!(
        latest_pointer_path(&"/logs".to_string(), Platform::Linux),
        "/logs/latest.log"
    );
}

#[test]
fn log_lines() {
    assert_eq!(
        format_log_line("2024-01-02 03:04:05 UTC", "started"),
        "[2024-01-02 03:04:05 UTC] started\n"
    );
    assert_eq!(error_message("boom"), "ERROR: boom");
    assert_eq!(panic_message("oops"), "!!! PANIC !!!: oops");
}

#[test]
fn log_header() {
    let lines = log_header_lines("now", "linux", "x86_64", "1.0.0", "/bin/app", "/work", "/logs/a.log");
    assert_eq!(lines.len(), 8);
    assert_eq!(lines[0], "=== ALauncher Log Started at now ===\n");
    assert_eq!(lines[1], "OS: linux");
    assert_eq!(lines[2], "Arch: x86_64");
    assert_eq!(lines[3], "Version: 1.0.0");
    assert_eq!(lines[4], "Executable: /bin/app");
    assert_eq!(lines[5], "Working Directory: /work");
    assert_eq!(lines[6], "Log file: /logs/a.log");
    assert_eq!(lines[7], "=== System Info End ===\n");
}

#[test]
fn latest_log_pointer_roundtrip() {
    assert_eq!(
        get_latest_log_path(Some("  /logs/alauncher_x.log\n".to_string())),
        Some("/logs/alauncher_x.log".to_string())
    );
    assert_eq!(get_latest_log_path(None), None);
}
