//! Building the interpreter command line for one launch request.
//!
//! Flag order is part of the contract: classpath, the memory pair, the
//! library-search-path flag, the caller's runtime flags verbatim, the entry
//! class, the client flags, the synthesized identity flags, and the optional
//! multiplayer target last.

use vstd::prelude::*;
use crate::platform::{classpath_separator, classpath_separator_exec, Platform};
use crate::text::{dec_rep, join_strings, join_with, u64_to_string};

verus! {

/// One launch request, constructed once per launch and never mutated.
#[derive(Debug)]
pub struct LaunchParams {
    pub profile_id: String,
    pub username: String,
    pub uuid: String,
    pub access_token: String,
    pub game_dir: String,
    pub assets_dir: String,
    pub resolution: Resolution,
    pub full_screen: bool,
    pub java_path: String,
    pub java_version: String,
    pub ram: String,
    pub jvm_args: Vec<String>,
    pub client_args: Vec<String>,
    pub main_class: String,
    pub class_path: Vec<String>,
    pub server_address: Option<String>,
    pub server_port: Option<i32>,
}

/// A window size carried in the request.
#[derive(Debug)]
pub struct Resolution {
    pub width: u32,
    pub height: u32,
}

/// The command a launch request builds: what to run, with which arguments,
/// where, and with which runtime-options environment value.
#[derive(Debug)]
pub struct LaunchCommand {
    pub program: String,
    pub args: Vec<String>,
    pub current_dir: String,
    pub java_options_env: String,
}

/// The maximum-heap flag derived from the requested megabytes.
pub open spec fn memory_max_flag(ram: Seq<char>) -> Seq<char> {
    "-Xmx"@ + ram + "m"@
}

/// The initial-heap flag derived from the requested megabytes.
pub open spec fn memory_min_flag(ram: Seq<char>) -> Seq<char> {
    "-Xms"@ + ram + "m"@
}

/// The library-search-path flag pointing at the prepared natives directory.
pub open spec fn library_path_flag(natives_dir: Seq<char>) -> Seq<char> {
    "-Djava.library.path="@ + natives_dir
}

/// The classpath contributions resolved in order: a literal entry is joined
/// onto the working directory; the expansion sentinel is replaced by every
/// archive under the libraries root, in traversal order.
pub open spec fn resolved_classpath(
    entries: Seq<Seq<char>>,
    game_dir: Seq<char>,
    archives: Seq<Seq<char>>,
) -> Seq<Seq<char>>
    decreases entries.len(),
{
    if entries.len() == 0 {
        Seq::<Seq<char>>::empty()
    } else {
        let rest = resolved_classpath(entries.drop_last(), game_dir, archives);
        if entries.last() == "libraries"@ {
            rest + archives
        } else {
            rest.push(game_dir + "/"@ + entries.last())
        }
    }
}

/// The decimal rendering of a signed value.
pub open spec fn int_rep(n: int) -> Seq<char> {
    if n < 0 {
        "-"@ + dec_rep((-n) as nat)
    } else {
        dec_rep(n as nat)
    }
}

/// Renders a signed port number in decimal.
pub fn i32_to_string(n: i32) -> (s: String)
    ensures
        s@ == int_rep(n as int),
{
    if n < 0 {
        let magnitude: u64 = (-(n as i64)) as u64;
        let mut s = String::from_str("-");
        s.append(u64_to_string(magnitude).as_str());
        proof {
            assert(s@ =~= int_rep(n as int));
        }
        s
    } else {
        u64_to_string(n as u64)
    }
}

/// The fixed identity flags appended after the client flags, in order.
pub open spec fn identity_args(p: LaunchParams) -> Seq<Seq<char>> {
    seq![
        "--username"@,
        p.username@,
        "--uuid"@,
        p.uuid@,
        "--accessToken"@,
        p.access_token@,
        "--version"@,
        "1.12.2"@,
        "--gameDir"@,
        p.game_dir@,
        "--assetsDir"@,
        p.assets_dir@,
        "--assetIndex"@,
        "1.12"@,
        "--userType"@,
        "mojang"@,
        "--versionType"@,
        "release"@,
    ]
}

/// The trailing multiplayer flags: the server host only when an address was
/// given, the port only when both address and port were.
pub open spec fn server_args(p: LaunchParams) -> Seq<Seq<char>> {
    match p.server_address {
        None => Seq::<Seq<char>>::empty(),
        Some(addr) => seq!["--server"@, addr@] + (match p.server_port {
            None => Seq::<Seq<char>>::empty(),
            Some(port) => seq!["--port"@, int_rep(port as int)],
        }),
    }
}

/// The whole argument vector for a request, given the expanded archive list
/// and the prepared natives directory.
pub open spec fn command_args(
    p: LaunchParams,
    archives: Seq<Seq<char>>,
    natives_dir: Seq<char>,
    host: Platform,
) -> Seq<Seq<char>> {
    seq![
        "-cp"@,
        join_with(
            resolved_classpath(p.class_path.deep_view(), p.game_dir@, archives),
            classpath_separator(host),
        ),
        memory_max_flag(p.ram@),
        memory_min_flag(p.ram@),
        library_path_flag(natives_dir),
    ] + p.jvm_args.deep_view() + seq![p.main_class@] + p.client_args.deep_view() + identity_args(p)
        + server_args(p)
}

/// Returns `dst` with a copy of every element of `src` appended, in order.
fn append_all(dst: Vec<String>, src: &Vec<String>) -> (r: Vec<String>)
    ensures
        r.deep_view() == dst.deep_view() + src.deep_view(),
{
    let ghost dst0 = dst.deep_view();
    let mut r = dst;
    let mut i: usize = 0;
    proof {
        assert(r.deep_view() =~= dst0 + src.deep_view().take(0));
    }
    while i < src.len()
        invariant
            0 <= i <= src@.len(),
            r.deep_view() == dst0 + src.deep_view().take(i as int),
        decreases src@.len() - i,
    {
        let ghost r0 = r.deep_view();
        r.push(src[i].clone());
        proof {
            assert(r.deep_view() =~= r0.push(src.deep_view()[i as int]));
            assert(src.deep_view().take(i + 1) =~= src.deep_view().take(i as int).push(
                src.deep_view()[i as int],
            ));
            assert(r0.push(src.deep_view()[i as int]) =~= dst0 + src.deep_view().take(i + 1));
        }
        i += 1;
    }
    proof {
        assert(src.deep_view().take(src@.len() as int) =~= src.deep_view());
    }
    r
}

fn push_str(dst: &mut Vec<String>, s: &str)
    ensures
        final(dst).deep_view() == old(dst).deep_view().push(s@),
{
    dst.push(String::from_str(s));
    proof {
        assert(dst.deep_view() =~= old(dst).deep_view().push(s@));
    }
}

fn push_string(dst: &mut Vec<String>, s: String)
    ensures
        final(dst).deep_view() == old(dst).deep_view().push(s@),
{
    let ghost sv = s@;
    dst.push(s);
    proof {
        assert(dst.deep_view() =~= old(dst).deep_view().push(sv));
    }
}

/// Builds the classpath string: each contribution resolved, the parts
/// joined with the platform's separator.
pub fn build_classpath(
    entries: &Vec<String>,
    game_dir: &String,
    archives: &Vec<String>,
    host: Platform,
) -> (r: String)
    ensures
        r@ == join_with(
            resolved_classpath(entries.deep_view(), game_dir@, archives.deep_view()),
            classpath_separator(host),
        ),
{
    let ghost ev = entries.deep_view();
    let mut parts: Vec<String> = Vec::new();
    proof {
        assert(parts.deep_view() =~= resolved_classpath(ev.take(0), game_dir@, archives.deep_view()));
    }
    let mut i: usize = 0;
    while i < entries.len()
        invariant
            ev == entries.deep_view(),
            0 <= i <= ev.len(),
            parts.deep_view() == resolved_classpath(
                ev.take(i as int),
                game_dir@,
                archives.deep_view(),
            ),
        decreases ev.len() - i,
    {
        let ghost parts0 = parts.deep_view();
        proof {
            assert(ev.take(i + 1).drop_last() =~= ev.take(i as int));
            assert(ev.take(i + 1).last() == ev[i as int]);
        }
        let sentinel = String::from_str("libraries");
        if entries[i].eq(&sentinel) {
            parts = append_all(parts, archives);
        } else {
            let mut resolved = game_dir.clone();
            resolved.append("/");
            resolved.append(entries[i].as_str());
            proof {
                assert(resolved@ =~= game_dir@ + "/"@ + ev[i as int]);
            }
            parts.push(resolved);
            proof {
                assert(parts.deep_view() =~= parts0.push(game_dir@ + "/"@ + ev[i as int]));
            }
        }
        i += 1;
    }
    proof {
        assert(ev.take(ev.len() as int) =~= ev);
    }
    let sep = classpath_separator_exec(host);
    join_strings(&parts, sep)
}

/// Assembles the full command for a launch request: the program, the
/// argument vector in contract order, the working directory, and the
/// runtime-options environment value handed to the spawned process.
#[verifier::rlimit(60)]
pub fn build_launch_command(
    p: &LaunchParams,
    archives: &Vec<String>,
    natives_dir: &String,
    host: Platform,
) -> (r: LaunchCommand)
    ensures
        r.program@ == p.java_path@,
        r.args.deep_view() == command_args(*p, archives.deep_view(), natives_dir@, host),
        r.current_dir@ == p.game_dir@,
        r.java_options_env@ == join_with(p.jvm_args.deep_view(), " "@),
{
    let mut args: Vec<String> = Vec::new();
    push_str(&mut args, "-cp");
    push_string(&mut args, build_classpath(&p.class_path, &p.game_dir, archives, host));

    let mut xmx = String::from_str("-Xmx");
    xmx.append(p.ram.as_str());
    xmx.append("m");
    proof {
        assert(xmx@ =~= memory_max_flag(p.ram@));
    }
    push_string(&mut args, xmx);

    let mut xms = String::from_str("-Xms");
    xms.append(p.ram.as_str());
    xms.append("m");
    proof {
        assert(xms@ =~= memory_min_flag(p.ram@));
    }
    push_string(&mut args, xms);

    let mut libflag = String::from_str("-Djava.library.path=");
    libflag.append(natives_dir.as_str());
    proof {
        assert(libflag@ =~= library_path_flag(natives_dir@));
    }
    push_string(&mut args, libflag);

    let ghost head = seq![
        "-cp"@,
        join_with(
            resolved_classpath(p.class_path.deep_view(), p.game_dir@, archives.deep_view()),
            classpath_separator(host),
        ),
        memory_max_flag(p.ram@),
        memory_min_flag(p.ram@),
        library_path_flag(natives_dir@),
    ];
    proof {
        assert(args.deep_view() =~= head);
    }

    args = append_all(args, &p.jvm_args);
    push_string(&mut args, p.main_class.clone());
    let ghost upto_main = head + p.jvm_args.deep_view() + seq![p.main_class@];
    proof {
        assert(args.deep_view() =~= upto_main);
    }
    args = append_all(args, &p.client_args);
    let ghost upto_client = upto_main + p.client_args.deep_view();

    push_str(&mut args, "--username");
    push_string(&mut args, p.username.clone());
    push_str(&mut args, "--uuid");
    push_string(&mut args, p.uuid.clone());
    push_str(&mut args, "--accessToken");
    push_string(&mut args, p.access_token.clone());
    proof {
        assert(args.deep_view() =~= upto_client + seq![
            "--username"@,
            p.username@,
            "--uuid"@,
            p.uuid@,
            "--accessToken"@,
            p.access_token@,
        ]);
    }
    let ghost upto_token = args.deep_view();
    push_str(&mut args, "--version");
    push_str(&mut args, "1.12.2");
    push_str(&mut args, "--gameDir");
    push_string(&mut args, p.game_dir.clone());
    push_str(&mut args, "--assetsDir");
    push_string(&mut args, p.assets_dir.clone());
    proof {
        assert(args.deep_view() =~= upto_token + seq![
            "--version"@,
            "1.12.2"@,
            "--gameDir"@,
            p.game_dir@,
            "--assetsDir"@,
            p.assets_dir@,
        ]);
    }
    let ghost upto_assets = args.deep_view();
    push_str(&mut args, "--assetIndex");
    push_str(&mut args, "1.12");
    push_str(&mut args, "--userType");
    push_str(&mut args, "mojang");
    push_str(&mut args, "--versionType");
    push_str(&mut args, "release");
    proof {
        assert(args.deep_view() =~= upto_assets + seq![
            "--assetIndex"@,
            "1.12"@,
            "--userType"@,
            "mojang"@,
            "--versionType"@,
            "release"@,
        ]);
        assert(args.deep_view() =~= upto_client + identity_args(*p));
    }
    let ghost upto_identity = args.deep_view();

    match &p.server_address {
        Some(addr) => {
            push_str(&mut args, "--server");
            push_string(&mut args, addr.clone());
            proof {
                assert(args.deep_view() =~= upto_identity + seq!["--server"@, addr@]);
            }
            match p.server_port {
                Some(port) => {
                    let ghost upto_server = args.deep_view();
                    push_str(&mut args, "--port");
                    push_string(&mut args, i32_to_string(port));
                    proof {
                        assert(args.deep_view() =~= upto_server + seq![
                            "--port"@,
                            int_rep(port as int),
                        ]);
                    }
                },
                None => {},
            }
        },
        None => {},
    }
    proof {
        assert(args.deep_view() =~= command_args(
            *p,
            archives.deep_view(),
            natives_dir@,
            host,
        ));
    }

    let java_options_env = join_strings(&p.jvm_args, " ");
    LaunchCommand {
        program: p.java_path.clone(),
        args,
        current_dir: p.game_dir.clone(),
        java_options_env,
    }
}

} // verus!
