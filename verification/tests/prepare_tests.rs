use std::io::Write;
use alauncher::natives::{consolidate_natives, list_archives, scan_native_archives};
use alauncher::platform::{archive_platform_marker_exec, is_native_archive_name_exec, is_native_library_name_exec, should_extract_archive_exec, Platform};
use alauncher::prepare::{libraries_root_path, natives_dir_path, prepare_natives, validate_launch_dirs, ArchiveInput, DirProbe, PrepareError};

fn strings(v: &[&str]) -> Vec<String> {
    v.iter().map(|s| s.to_string()).collect()
}

/// A small in-memory archive: one native library under a folder, one text
/// entry, and a second native library stored without compression.
fn sample_archive_bytes() -> Vec<u8> {
    let cursor = std::io::Cursor::new(Vec::new());
    let mut writer = zip::ZipWriter::new(cursor);
    let deflated: zip::write::SimpleFileOptions =
        zip::write::SimpleFileOptions::default().compression_method(zip::CompressionMethod::Deflated);
    let stored: zip::write::SimpleFileOptions =
        zip::write::SimpleFileOptions::default().compression_method(zip::CompressionMethod::Stored);
    writer.start_file("native/foo.dll", deflated).unwrap();
    writer.write_all(b"foo-bytes").unwrap();
    writer.start_file("readme.txt", deflated).unwrap();
    writer.write_all(b"hello").unwrap();
    writer.start_file("bar.so", stored).unwrap();
    writer.write_all(b"bar-bytes").unwrap();
    writer.finish().unwrap().into_inner()
}

#[test]
fn scanner_matches_marker_and_suffix() {
    let paths = strings(&[
        "libs/x-natives.jar",
        "libs/plain.jar",
        "libs/NATIVES-linux.JAR",
        "libs/natives.txt",
    ]);
    let found = scan_native_archives(&paths);
    assert_eq!(found, strings(&["libs/x-natives.jar", "libs/NATIVES-linux.JAR"]));
}

#[test]
fn scanner_of_empty_root_finds_nothing() {
    let found = scan_native_archives(&Vec::new());
    assert!(found.is_empty());
}

#[test]
fn classpath_expansion_lists_every_archive() {
    let paths = strings(&["libraries/a.jar", "libraries/notes.md", "libraries/b.JAR"]);
    let jars = list_archives(&paths);
    assert_eq!(jars, strings(&["libraries/a.jar", "libraries/b.JAR"]));
}

#[test]
fn native_name_predicates() {
    assert!(is_native_library_name_exec("x.dll"));
    assert!(is_native_library_name_exec("x.SO"));
    assert!(is_native_library_name_exec("x.dylib"));
    assert!(!is_native_library_name_exec("x.txt"));
    assert!(is_native_archive_name_exec("lwjgl-natives-linux.jar"));
    assert!(!is_native_archive_name_exec("lwjgl.jar"));
}

#[test]
fn platform_markers() {
    assert_eq!(archive_platform_marker_exec("a-natives-windows.jar"), Some(Platform::Windows));
    assert_eq!(archive_platform_marker_exec("a-natives-LINUX.jar"), Some(Platform::Linux));
    assert_eq!(archive_platform_marker_exec("a-natives-macos.jar"), Some(Platform::MacOs));
    assert_eq!(archive_platform_marker_exec("a-natives-osx.jar"), Some(Platform::MacOs));
    assert_eq!(archive_platform_marker_exec("a-natives.jar"), None);
}

#[test]
fn platform_filter_skips_only_foreign() {
    assert!(!should_extract_archive_exec("natives-linux.jar", Platform::Windows));
    assert!(should_extract_archive_exec("natives-windows.jar", Platform::Windows));
    assert!(should_extract_archive_exec("natives.jar", Platform::Windows));
    assert!(should_extract_archive_exec("natives.jar", Platform::Linux));
}

#[test]
fn consolidation_copies_missing_only_and_is_idempotent() {
    let root = strings(&["present.dll"]);
    let subs = strings(&[
        "windows/a.dll",
        "linux/b.so",
        "windows/a.dll",
        "windows/present.dll",
        "windows/readme.txt",
    ]);
    let plan = consolidate_natives(&root, &subs);
    assert_eq!(plan, strings(&["a.dll", "b.so"]));

    let mut after: Vec<String> = root.clone();
    after.extend(plan);
    let second = consolidate_natives(&after, &subs);
    assert!(second.is_empty());
}

#[test]
fn preparation_with_nothing_to_do_succeeds_empty() {
    let report = prepare_natives(&Vec::new(), &Vec::new(), &Vec::new(), Platform::Linux);
    assert!(report.outcome.is_ok());
    assert!(!report.already_satisfied);
    assert!(report.copies.is_empty());
    assert!(report.extractions.is_empty());
}

#[test]
fn preparation_foreign_only_fails() {
    let candidates = vec![ArchiveInput {
        path: "libs/x-natives-windows.jar".to_string(),
        data: vec![1, 2, 3],
    }];
    let report = prepare_natives(&Vec::new(), &Vec::new(), &candidates, Platform::Linux);
    assert_eq!(report.outcome, Err(PrepareError::NoNativesPrepared));
    assert!(report.extractions.is_empty());
}

#[test]
fn preparation_extracts_native_entries_flat() {
    let candidates = vec![ArchiveInput {
        path: "libs/x-natives.jar".to_string(),
        data: sample_archive_bytes(),
    }];
    let report = prepare_natives(&Vec::new(), &Vec::new(), &candidates, Platform::Linux);
    assert!(report.outcome.is_ok());
    assert_eq!(report.extractions.len(), 1);
    let ext = &report.extractions[0];
    assert!(ext.opened);
    assert!(ext.failed_entries.is_empty());
    assert_eq!(ext.produced.len(), 2);
    assert_eq!(ext.produced[0].name, "foo.dll");
    assert_eq!(ext.produced[0].data, b"foo-bytes".to_vec());
    assert_eq!(ext.produced[1].name, "bar.so");
    assert_eq!(ext.produced[1].data, b"bar-bytes".to_vec());
}

#[test]
fn preparation_skips_unreadable_archive() {
    let candidates = vec![ArchiveInput {
        path: "libs/broken-natives.jar".to_string(),
        data: vec![0, 1, 2, 3, 4],
    }];
    let report = prepare_natives(&Vec::new(), &Vec::new(), &candidates, Platform::Linux);
    assert_eq!(report.outcome, Err(PrepareError::NoNativesPrepared));
    assert_eq!(report.extractions.len(), 1);
    assert!(!report.extractions[0].opened);
    assert!(report.extractions[0].produced.is_empty());
}

#[test]
fn preparation_satisfied_root_extracts_nothing() {
    let root = strings(&["already.dll"]);
    let candidates = vec![ArchiveInput {
        path: "libs/x-natives.jar".to_string(),
        data: sample_archive_bytes(),
    }];
    let report = prepare_natives(&root, &Vec::new(), &candidates, Platform::Linux);
    assert!(report.outcome.is_ok());
    assert!(report.already_satisfied);
    assert!(report.extractions.is_empty());
}

#[test]
fn preparation_satisfied_by_consolidation_alone() {
    let subs = strings(&["windows/from-subdir.dll"]);
    let report = prepare_natives(&Vec::new(), &subs, &Vec::new(), Platform::Windows);
    assert!(report.outcome.is_ok());
    assert!(report.already_satisfied);
    assert_eq!(report.copies, strings(&["from-subdir.dll"]));
}

#[test]
fn prepare_error_message() {
    assert_eq!(
        PrepareError::NoNativesPrepared.message(),
        "no native libraries could be prepared"
    );
}

#[test]
fn launch_directory_paths() {
    assert_eq!(natives_dir_path(&"game".to_string()), "game/natives");
    assert_eq!(libraries_root_path(&"game".to_string()), "game/libraries");
}

#[test]
fn directory_validation() {
    assert_eq!(
        validate_launch_dirs(DirProbe::Missing, DirProbe::IsDirectory),
        Ok((true, false))
    );
    assert_eq!(
        validate_launch_dirs(DirProbe::IsDirectory, DirProbe::Missing),
        Ok((false, true))
    );
    let err = validate_launch_dirs(DirProbe::NotADirectory, DirProbe::Missing);
    assert_eq!(err, Err("game directory path exists but is not a directory".to_string()));
    let err2 = validate_launch_dirs(DirProbe::IsDirectory, DirProbe::NotADirectory);
    assert_eq!(err2, Err("assets directory path exists but is not a directory".to_string()));
}
