//! The pure side of the launcher's file logger: where the log lives, how a
//! line is stamped, and how the pointer to the latest log is read back.
//!
//! Opening, writing and flushing the log file are the caller's; every
//! string this module hands it is pinned here.

use vstd::prelude::*;
use crate::platform::Platform;
use crate::text::{trim, trim_exec};

verus! {

/// The separator the platform's path-joining uses.
pub open spec fn path_sep(os: Platform) -> Seq<char> {
    if os == Platform::Windows {
        "\\"@
    } else {
        "/"@
    }
}

fn path_sep_exec(os: Platform) -> (r: &'static str)
    ensures
        r@ == path_sep(os),
{
    if os == Platform::Windows {
        "\\"
    } else {
        "/"
    }
}

/// The log directory under the platform's per-user data root.
pub open spec fn log_dir(data_dir: Seq<char>, os: Platform) -> Seq<char> {
    data_dir + path_sep(os) + "ALauncher"@ + path_sep(os) + "logs"@
}

/// Builds the log directory path under the caller-supplied data root.
pub fn log_dir_path(data_dir: &String, os: Platform) -> (r: String)
    ensures
        r@ == log_dir(data_dir@, os),
{
    let sep = path_sep_exec(os);
    let mut r = data_dir.clone();
    r.append(sep);
    r.append("ALauncher");
    r.append(sep);
    r.append("logs");
    proof {
        assert(r@ =~= log_dir(data_dir@, os));
    }
    r
}

/// The name of one log file, stamped with the moment logging started.
pub open spec fn log_file_name(timestamp: Seq<char>) -> Seq<char> {
    "alauncher_"@ + timestamp + ".log"@
}

/// Builds the name of the log file for the given timestamp.
pub fn log_file_name_exec(timestamp: &str) -> (r: String)
    ensures
        r@ == log_file_name(timestamp@),
{
    let mut r = String::from_str("alauncher_");
    r.append(timestamp);
    r.append(".log");
    proof {
        assert(r@ =~= log_file_name(timestamp@));
    }
    r
}

/// The path of the pointer file naming the latest log.
pub open spec fn latest_pointer_path_spec(dir: Seq<char>, os: Platform) -> Seq<char> {
    dir + path_sep(os) + "latest.log"@
}

/// Builds the path of the pointer file naming the latest log.
pub fn latest_pointer_path(dir: &String, os: Platform) -> (r: String)
    ensures
        r@ == latest_pointer_path_spec(dir@, os),
{
    let sep = path_sep_exec(os);
    let mut r = dir.clone();
    r.append(sep);
    r.append("latest.log");
    proof {
        assert(r@ =~= latest_pointer_path_spec(dir@, os));
    }
    r
}

/// One stamped log line, newline-terminated.
pub open spec fn log_line(timestamp: Seq<char>, message: Seq<char>) -> Seq<char> {
    "["@ + timestamp + "] "@ + message + "\n"@
}

/// Stamps one message into the line the log file holds for it.
pub fn format_log_line(timestamp: &str, message: &str) -> (r: String)
    ensures
        r@ == log_line(timestamp@, message@),
{
    let mut r = String::from_str("[");
    r.append(timestamp);
    r.append("] ");
    r.append(message);
    r.append("\n");
    proof {
        assert(r@ =~= log_line(timestamp@, message@));
    }
    r
}

/// The message an error is logged under.
pub fn error_message(error: &str) -> (r: String)
    ensures
        r@ == "ERROR: "@ + error@,
{
    let mut r = String::from_str("ERROR: ");
    r.append(error);
    proof {
        assert(r@ =~= "ERROR: "@ + error@);
    }
    r
}

/// The message a panic is logged under.
pub fn panic_message(panic_info: &str) -> (r: String)
    ensures
        r@ == "!!! PANIC !!!: "@ + panic_info@,
{
    let mut r = String::from_str("!!! PANIC !!!: ");
    r.append(panic_info);
    proof {
        assert(r@ =~= "!!! PANIC !!!: "@ + panic_info@);
    }
    r
}

/// The header written at the top of every fresh log: the start banner, the
/// system description, and the closing banner, in order.
pub open spec fn log_header(
    started: Seq<char>,
    os_name: Seq<char>,
    arch: Seq<char>,
    version: Seq<char>,
    executable: Seq<char>,
    working_dir: Seq<char>,
    log_file: Seq<char>,
) -> Seq<Seq<char>> {
    seq![
        "=== ALauncher Log Started at "@ + started + " ===\n"@,
        "OS: "@ + os_name,
        "Arch: "@ + arch,
        "Version: "@ + version,
        "Executable: "@ + executable,
        "Working Directory: "@ + working_dir,
        "Log file: "@ + log_file,
        "=== System Info End ===\n"@,
    ]
}

fn prefixed(prefix: &str, rest: &str) -> (r: String)
    ensures
        r@ == prefix@ + rest@,
{
    let mut r = String::from_str(prefix);
    r.append(rest);
    r
}

/// Builds the header lines written at the top of every fresh log.
pub fn log_header_lines(
    started: &str,
    os_name: &str,
    arch: &str,
    version: &str,
    executable: &str,
    working_dir: &str,
    log_file: &str,
) -> (r: Vec<String>)
    ensures
        r.deep_view() == log_header(
            started@,
            os_name@,
            arch@,
            version@,
            executable@,
            working_dir@,
            log_file@,
        ),
{
    let mut first = String::from_str("=== ALauncher Log Started at ");
    first.append(started);
    first.append(" ===\n");
    proof {
        assert(first@ =~= "=== ALauncher Log Started at "@ + started@ + " ===\n"@);
    }
    let mut r: Vec<String> = Vec::new();
    r.push(first);
    r.push(prefixed("OS: ", os_name));
    r.push(prefixed("Arch: ", arch));
    r.push(prefixed("Version: ", version));
    r.push(prefixed("Executable: ", executable));
    r.push(prefixed("Working Directory: ", working_dir));
    r.push(prefixed("Log file: ", log_file));
    r.push(String::from_str("=== System Info End ===\n"));
    proof {
        assert(r.deep_view() =~= log_header(
            started@,
            os_name@,
            arch@,
            version@,
            executable@,
            working_dir@,
            log_file@,
        ));
    }
    r
}

/// The path of the latest log, as recovered from the pointer file's
/// contents: its text with surrounding whitespace removed. A missing
/// pointer file yields nothing.
pub fn get_latest_log_path(pointer_contents: Option<String>) -> (r: Option<String>)
    ensures
        match pointer_contents {
            Some(c) => r is Some && r.unwrap()@ == trim(c@),
            None => r is None,
        },
{
    match pointer_contents {
        Some(c) => Some(trim_exec(c.as_str())),
        None => None,
    }
}

} // verus!
