use alauncher::text::{basename_exec, contains_ci_exec, contains_sub_exec, ends_with_ci_exec, find_char_from, join_strings, trim_exec, u64_to_string};

#[test]
fn decimal_rendering() {
    assert_eq!(u64_to_string(0), "0");
    assert_eq!(u64_to_string(7), "7");
    assert_eq!(u64_to_string(10), "10");
    assert_eq!(u64_to_string(12345), "12345");
    assert_eq!(u64_to_string(u64::MAX), "18446744073709551615");
}

#[test]
fn distinct_numbers_distinct_strings() {
    assert_ne!(u64_to_string(1), u64_to_string(2));
    assert_ne!(u64_to_string(10), u64_to_string(100));
}

#[test]
fn basename_strips_directories() {
    assert_eq!(basename_exec("a/b/c.dll"), "c.dll");
    assert_eq!(basename_exec("a\\b\\c.dll"), "c.dll");
    assert_eq!(basename_exec("mixed/sep\\name.so"), "name.so");
    assert_eq!(basename_exec("plain.dylib"), "plain.dylib");
    assert_eq!(basename_exec("dir/"), "");
    assert_eq!(basename_exec(""), "");
}

#[test]
fn case_insensitive_search() {
    assert!(contains_ci_exec("Natives-WINDOWS.jar", "windows"));
    assert!(contains_ci_exec("abc", ""));
    assert!(!contains_ci_exec("linux", "windows"));
    assert!(ends_with_ci_exec("LIB.DLL", ".dll"));
    assert!(!ends_with_ci_exec("lib.dll.txt", ".dll"));
}

#[test]
fn exact_search_is_case_sensitive() {
    assert!(contains_sub_exec("openjdk version \"17\"", "version"));
    assert!(!contains_sub_exec("openjdk Version \"17\"", "version"));
}

#[test]
fn trimming() {
    assert_eq!(trim_exec("  /a/b.log\n"), "/a/b.log");
    assert_eq!(trim_exec("\t\r\n x \t"), "x");
    assert_eq!(trim_exec("   "), "");
    assert_eq!(trim_exec("y"), "y");
}

#[test]
fn joining() {
    let parts = vec!["a".to_string(), "b".to_string(), "c".to_string()];
    assert_eq!(join_strings(&parts, ":"), "a:b:c");
    let one = vec!["solo".to_string()];
    assert_eq!(join_strings(&one, ";"), "solo");
    let none: Vec<String> = Vec::new();
    assert_eq!(join_strings(&none, ":"), "");
}

#[test]
fn finding_characters() {
    assert_eq!(find_char_from("ab\ncd", '\n', 0), 2);
    assert_eq!(find_char_from("ab\ncd", '\n', 3), 5);
    assert_eq!(find_char_from("abc", 'z', 0), 3);
}
