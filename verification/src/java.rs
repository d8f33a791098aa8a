//! Discovering installed runtimes: the per-platform search paths, the
//! executable locations under an installation, parsing a version out of the
//! interpreter's own report, and assembling the installation list.
//!
//! Probing the file system and the environment is the caller's; this module
//! decides what to probe and what the probe results mean.

use vstd::prelude::*;
use crate::platform::Platform;
use crate::text::{contains_sub, contains_sub_exec, find_char_from, first_index, trim, trim_exec};

verus! {

/// A runtime installation as reported to the caller: where it lives, the
/// version it reported, and the word width assumed for a modern system.
#[derive(Debug, Clone)]
pub struct JavaInstallation {
    pub path: String,
    pub version: String,
    pub is_64_bit: bool,
}

impl DeepView for JavaInstallation {
    type V = (Seq<char>, Seq<char>, bool);

    open spec fn deep_view(&self) -> (Seq<char>, Seq<char>, bool) {
        (self.path@, self.version@, self.is_64_bit)
    }
}

/// One probed search path: whether it exists on disk, and the version its
/// interpreter reported when run.
#[derive(Debug)]
pub struct JavaCandidate {
    pub path: String,
    pub exists: bool,
    pub version: String,
}

impl DeepView for JavaCandidate {
    type V = (Seq<char>, bool, Seq<char>);

    open spec fn deep_view(&self) -> (Seq<char>, bool, Seq<char>) {
        (self.path@, self.exists, self.version@)
    }
}

/// The fixed per-platform list of places to look for an installed runtime;
/// on Windows the two program-files roots from the environment come first
/// when they are set.
pub open spec fn search_paths(
    os: Platform,
    program_files: Option<Seq<char>>,
    program_files_x86: Option<Seq<char>>,
) -> Seq<Seq<char>> {
    match os {
        Platform::Linux => seq![
            "/usr/lib/jvm/default-java"@,
            "/usr/lib/jvm/java-17-openjdk"@,
            "/usr/lib/jvm/java-21-openjdk"@,
            "/usr/lib/jvm/java-11-openjdk"@,
            "/usr/java/default"@,
            "/opt/java"@,
        ],
        Platform::MacOs => seq!["/Library/Java/JavaVirtualMachines"@, "/System/Library/Java"@],
        Platform::Windows => (match program_files {
            Some(pf) => seq![pf + "\\Java"@],
            None => Seq::<Seq<char>>::empty(),
        }) + (match program_files_x86 {
            Some(pf) => seq![pf + "\\Java"@],
            None => Seq::<Seq<char>>::empty(),
        }) + seq!["C:\\Program Files\\Java"@, "C:\\Program Files (x86)\\Java"@],
    }
}

/// Executable counterpart of [`search_paths`]. The environment values are
/// handed in by the caller.
pub fn get_java_search_paths(
    os: Platform,
    program_files: &Option<String>,
    program_files_x86: &Option<String>,
) -> (r: Vec<String>)
    ensures
        r.deep_view() == search_paths(
            os,
            match program_files {
                Some(pf) => Some(pf@),
                None => None,
            },
            match program_files_x86 {
                Some(pf) => Some(pf@),
                None => None,
            },
        ),
{
    let mut r: Vec<String> = Vec::new();
    match os {
        Platform::Linux => {
            r.push(String::from_str("/usr/lib/jvm/default-java"));
            r.push(String::from_str("/usr/lib/jvm/java-17-openjdk"));
            r.push(String::from_str("/usr/lib/jvm/java-21-openjdk"));
            r.push(String::from_str("/usr/lib/jvm/java-11-openjdk"));
            r.push(String::from_str("/usr/java/default"));
            r.push(String::from_str("/opt/java"));
        },
        Platform::MacOs => {
            r.push(String::from_str("/Library/Java/JavaVirtualMachines"));
            r.push(String::from_str("/System/Library/Java"));
        },
        Platform::Windows => {
            match program_files {
                Some(pf) => {
                    let mut p = pf.clone();
                    p.append("\\Java");
                    r.push(p);
                },
                None => {},
            }
            match program_files_x86 {
                Some(pf) => {
                    let mut p = pf.clone();
                    p.append("\\Java");
                    r.push(p);
                },
                None => {},
            }
            r.push(String::from_str("C:\\Program Files\\Java"));
            r.push(String::from_str("C:\\Program Files (x86)\\Java"));
        },
    }
    proof {
        assert(r.deep_view() =~= search_paths(
            os,
            match program_files {
                Some(pf) => Some(pf@),
                None => None,
            },
            match program_files_x86 {
                Some(pf) => Some(pf@),
                None => None,
            },
        ));
    }
    r
}

/// Where the interpreter binary can sit under an installation root: under
/// its `bin` folder, or directly beside it, with the platform's binary
/// name and separator.
pub open spec fn java_executable_candidates(java_path: Seq<char>, os: Platform) -> Seq<Seq<char>> {
    let sep = if os == Platform::Windows {
        "\\"@
    } else {
        "/"@
    };
    let bin = if os == Platform::Windows {
        "java.exe"@
    } else {
        "java"@
    };
    seq![java_path + sep + "bin"@ + sep + bin, java_path + sep + bin]
}

/// Executable counterpart of [`java_executable_candidates`]; the caller
/// checks which candidate exists.
pub fn find_java_executable(java_path: &String, os: Platform) -> (r: Vec<String>)
    ensures
        r.deep_view() == java_executable_candidates(java_path@, os),
{
    let sep = if os == Platform::Windows {
        "\\"
    } else {
        "/"
    };
    let bin = if os == Platform::Windows {
        "java.exe"
    } else {
        "java"
    };
    let mut first = java_path.clone();
    first.append(sep);
    first.append("bin");
    first.append(sep);
    first.append(bin);
    let mut second = java_path.clone();
    second.append(sep);
    second.append(bin);
    let mut r: Vec<String> = Vec::new();
    r.push(first);
    r.push(second);
    proof {
        assert(r.deep_view() =~= java_executable_candidates(java_path@, os));
    }
    r
}

/// The first line of `out` that mentions "version", trimmed; "Unknown"
/// when no line does.
pub open spec fn fallback_version(out: Seq<char>) -> Seq<char>
    decreases out.len(),
{
    let nl = first_index(out, '\n');
    if nl < out.len() {
        let line = out.subrange(0, nl as int);
        if contains_sub(line, "version"@) {
            trim(line)
        } else {
            fallback_version(out.subrange(nl + 1 as int, out.len() as int))
        }
    } else {
        if contains_sub(out, "version"@) {
            trim(out)
        } else {
            "Unknown"@
        }
    }
}

/// The version the interpreter reported: the text between the first two
/// quotes of its output, as the report conventionally carries it; failing
/// that, the first line mentioning "version", trimmed; failing that,
/// "Unknown".
pub open spec fn java_version_of(out: Seq<char>) -> Seq<char> {
    let q1 = first_index(out, '"');
    if q1 < out.len() {
        let rest = out.subrange(q1 + 1 as int, out.len() as int);
        let q2 = first_index(rest, '"');
        if q2 < rest.len() {
            out.subrange(q1 + 1 as int, (q1 + 1 + q2) as int)
        } else {
            fallback_version(out)
        }
    } else {
        fallback_version(out)
    }
}

fn fallback_version_exec(out: &str) -> (r: String)
    ensures
        r@ == fallback_version(out@),
    decreases out@.len(),
{
    let len = out.unicode_len();
    let nl = find_char_from(out, '\n', 0);
    proof {
        assert(out@.subrange(0, len as int) =~= out@);
    }
    if nl < len {
        let line = out.substring_char(0, nl);
        if contains_sub_exec(line, "version") {
            trim_exec(line)
        } else {
            let rest = out.substring_char(nl + 1, len);
            fallback_version_exec(rest)
        }
    } else {
        if contains_sub_exec(out, "version") {
            trim_exec(out)
        } else {
            String::from_str("Unknown")
        }
    }
}

/// Parses the version out of the interpreter's own report. The caller runs
/// the interpreter and hands its output in.
pub fn detect_java_version(out: &str) -> (r: String)
    ensures
        r@ == java_version_of(out@),
{
    let len = out.unicode_len();
    let q1 = find_char_from(out, '"', 0);
    proof {
        assert(out@.subrange(0, len as int) =~= out@);
    }
    if q1 < len {
        let q2 = find_char_from(out, '"', q1 + 1);
        let ghost rest = out@.subrange(q1 + 1, len as int);
        if q2 < len {
            proof {
                assert(first_index(rest, '"') == q2 - (q1 + 1));
                assert(first_index(rest, '"') < rest.len());
            }
            let piece = out.substring_char(q1 + 1, q2);
            proof {
                assert(piece@ == java_version_of(out@));
            }
            piece.to_owned()
        } else {
            proof {
                assert(first_index(rest, '"') >= rest.len());
            }
            fallback_version_exec(out)
        }
    } else {
        fallback_version_exec(out)
    }
}

/// The installations found at the probed search paths: one per path that
/// exists, carrying the version its interpreter reported, in probe order.
pub open spec fn installations_from(cands: Seq<(Seq<char>, bool, Seq<char>)>) -> Seq<
    (Seq<char>, Seq<char>, bool),
>
    decreases cands.len(),
{
    if cands.len() == 0 {
        Seq::<(Seq<char>, Seq<char>, bool)>::empty()
    } else {
        let rest = installations_from(cands.drop_last());
        let c = cands.last();
        if c.1 {
            rest.push((c.0, c.2, true))
        } else {
            rest
        }
    }
}

/// The installation list with the environment-named home appended: only
/// when that home exists and no found installation already has its path.
pub open spec fn with_java_home(
    base: Seq<(Seq<char>, Seq<char>, bool)>,
    home: Option<(Seq<char>, bool)>,
) -> Seq<(Seq<char>, Seq<char>, bool)> {
    match home {
        Some(h) => if h.1 && !(exists|k: int| 0 <= k < base.len() && (#[trigger] base[k]).0
            == h.0) {
            base.push((h.0, "JAVA_HOME"@, true))
        } else {
            base
        },
        None => base,
    }
}

/// Assembles the installation list from the probed search paths and the
/// probed environment home. The caller probed existence and ran each
/// interpreter for its version.
pub fn find_java_installations(
    candidates: &Vec<JavaCandidate>,
    java_home: Option<&JavaCandidate>,
) -> (r: Vec<JavaInstallation>)
    ensures
        r.deep_view() == with_java_home(
            installations_from(candidates.deep_view()),
            match java_home {
                Some(h) => Some((h.path@, h.exists)),
                None => None,
            },
        ),
{
    let ghost cv = candidates.deep_view();
    let mut r: Vec<JavaInstallation> = Vec::new();
    proof {
        assert(r.deep_view() =~= installations_from(cv.take(0)));
    }
    let mut i: usize = 0;
    while i < candidates.len()
        invariant
            cv == candidates.deep_view(),
            0 <= i <= cv.len(),
            r.deep_view() == installations_from(cv.take(i as int)),
        decreases cv.len() - i,
    {
        let ghost r0 = r.deep_view();
        proof {
            assert(cv.take(i + 1).drop_last() =~= cv.take(i as int));
            assert(cv.take(i + 1).last() == cv[i as int]);
        }
        if candidates[i].exists {
            r.push(
                JavaInstallation {
                    path: candidates[i].path.clone(),
                    version: candidates[i].version.clone(),
                    is_64_bit: true,
                },
            );
            proof {
                assert(r.deep_view() =~= r0.push((cv[i as int].0, cv[i as int].2, true)));
            }
        }
        i += 1;
    }
    proof {
        assert(cv.take(cv.len() as int) =~= cv);
    }
    match java_home {
        Some(h) => {
            if h.exists {
                let ghost base = r.deep_view();
                let mut present = false;
                let mut k: usize = 0;
                let n = r.len();
                while k < n
                    invariant
                        n == r@.len(),
                        base == r.deep_view(),
                        0 <= k <= n,
                        present == exists|t: int|
                            0 <= t < k && (#[trigger] base[t]).0 == h.path@,
                    decreases n - k,
                {
                    if r[k].path.eq(&h.path) {
                        present = true;
                        assert(base[k as int].0 == h.path@);
                    }
                    k += 1;
                }
                if !present {
                    let ghost r1 = r.deep_view();
                    r.push(
                        JavaInstallation {
                            path: h.path.clone(),
                            version: String::from_str("JAVA_HOME"),
                            is_64_bit: true,
                        },
                    );
                    proof {
                        assert(r.deep_view() =~= r1.push((h.path@, "JAVA_HOME"@, true)));
                    }
                }
            }
        },
        None => {},
    }
    r
}

} // verus!
