//! Host platforms, native-library file names, and the platform filter that
//! decides which bundled archives are worth extracting on a given host.

use vstd::prelude::*;
use crate::text::{contains_ci, contains_ci_exec, ends_with_ci, ends_with_ci_exec};

verus! {

/// An operating system the launcher can prepare native libraries for.
#[derive(Clone, Copy, PartialEq, Eq, Structural, Debug)]
pub enum Platform {
    Windows,
    Linux,
    MacOs,
}

/// The file name carries one of the three native shared-library suffixes,
/// compared case-insensitively.
pub open spec fn is_native_library_name(name: Seq<char>) -> bool {
    ends_with_ci(name, ".dll"@) || ends_with_ci(name, ".so"@) || ends_with_ci(name, ".dylib"@)
}

/// Executable counterpart of [`is_native_library_name`].
pub fn is_native_library_name_exec(name: &str) -> (r: bool)
    ensures
        r == is_native_library_name(name@),
{
    ends_with_ci_exec(name, ".dll") || ends_with_ci_exec(name, ".so") || ends_with_ci_exec(
        name,
        ".dylib",
    )
}

/// The file name denotes an archive bundling native code: the archive suffix
/// together with the marker substring, both compared case-insensitively.
pub open spec fn is_native_archive_name(name: Seq<char>) -> bool {
    ends_with_ci(name, ".jar"@) && contains_ci(name, "natives"@)
}

/// Executable counterpart of [`is_native_archive_name`].
pub fn is_native_archive_name_exec(name: &str) -> (r: bool)
    ensures
        r == is_native_archive_name(name@),
{
    ends_with_ci_exec(name, ".jar") && contains_ci_exec(name, "natives")
}

/// The platform whose marker the archive name embeds, if any. The marker for
/// the Apple platform has two accepted spellings.
pub open spec fn archive_platform_marker(name: Seq<char>) -> Option<Platform> {
    if contains_ci(name, "windows"@) {
        Some(Platform::Windows)
    } else if contains_ci(name, "linux"@) {
        Some(Platform::Linux)
    } else if contains_ci(name, "macos"@) || contains_ci(name, "osx"@) {
        Some(Platform::MacOs)
    } else {
        None
    }
}

/// Executable counterpart of [`archive_platform_marker`].
pub fn archive_platform_marker_exec(name: &str) -> (r: Option<Platform>)
    ensures
        r == archive_platform_marker(name@),
{
    if contains_ci_exec(name, "windows") {
        Some(Platform::Windows)
    } else if contains_ci_exec(name, "linux") {
        Some(Platform::Linux)
    } else if contains_ci_exec(name, "macos") || contains_ci_exec(name, "osx") {
        Some(Platform::MacOs)
    } else {
        None
    }
}

/// An archive is extracted on `host` unless its name embeds a marker for a
/// different platform.
pub open spec fn should_extract_archive(name: Seq<char>, host: Platform) -> bool {
    match archive_platform_marker(name) {
        None => true,
        Some(p) => p == host,
    }
}

/// Executable counterpart of [`should_extract_archive`].
pub fn should_extract_archive_exec(name: &str, host: Platform) -> (r: bool)
    ensures
        r == should_extract_archive(name@, host),
{
    match archive_platform_marker_exec(name) {
        None => true,
        Some(p) => p == host,
    }
}

/// An archive named for a different platform than the host is never
/// extracted; an archive with no marker, or with the host's own marker,
/// always is.
pub proof fn lemma_platform_filter(name: Seq<char>, host: Platform)
    ensures
        (match archive_platform_marker(name) {
            Some(p) => p != host ==> !should_extract_archive(name, host),
            None => should_extract_archive(name, host),
        }),
        archive_platform_marker(name) == Some(host) ==> should_extract_archive(name, host),
{
}

/// The separator between classpath entries on the given platform.
pub open spec fn classpath_separator(host: Platform) -> Seq<char> {
    if host == Platform::Windows {
        ";"@
    } else {
        ":"@
    }
}

/// Executable counterpart of [`classpath_separator`].
pub fn classpath_separator_exec(host: Platform) -> (r: &'static str)
    ensures
        r@ == classpath_separator(host),
{
    if host == Platform::Windows {
        ";"
    } else {
        ":"
    }
}

} // verus!
