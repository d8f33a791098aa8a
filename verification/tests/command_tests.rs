use alauncher::command::{build_classpath, build_launch_command, i32_to_string, LaunchParams, Resolution};
use alauncher::platform::Platform;

fn request() -> LaunchParams {
    LaunchParams {
        profile_id: "p1".to_string(),
        username: "steve".to_string(),
        uuid: "uuid-1".to_string(),
        access_token: "tok".to_string(),
        game_dir: "game".to_string(),
        assets_dir: "assets".to_string(),
        resolution: Resolution { width: 854, height: 480 },
        full_screen: false,
        java_path: "/usr/bin/java".to_string(),
        java_version: "17".to_string(),
        ram: "2048".to_string(),
        jvm_args: Vec::new(),
        client_args: Vec::new(),
        main_class: "net.example.Client".to_string(),
        class_path: vec!["libraries".to_string()],
        server_address: None,
        server_port: None,
    }
}

fn archives() -> Vec<String> {
    vec!["libraries/a.jar".to_string(), "libraries/b.jar".to_string()]
}

#[test]
fn memory_flags_and_main_class_position() {
    let p = request();
    let cmd = build_launch_command(&p, &archives(), &"game/natives".to_string(), Platform::Linux);
    assert_eq!(cmd.program, "/usr/bin/java");
    assert!(cmd.args.contains(&"-Xmx2048m".to_string()));
    assert!(cmd.args.contains(&"-Xms2048m".to_string()));
    let lib_flag = cmd
        .args
        .iter()
        .position(|a| a == "-Djava.library.path=game/natives")
        .unwrap();
    assert_eq!(cmd.args[lib_flag + 1], "net.example.Client");
}

#[test]
fn classpath_joins_archives_with_platform_separator() {
    let p = request();
    let cp = build_classpath(&p.class_path, &p.game_dir, &archives(), Platform::Linux);
    assert_eq!(cp, "libraries/a.jar:libraries/b.jar");
    let cp_win = build_classpath(&p.class_path, &p.game_dir, &archives(), Platform::Windows);
    assert_eq!(cp_win, "libraries/a.jar;libraries/b.jar");
}

#[test]
fn literal_classpath_entries_join_working_dir() {
    let entries = vec!["client.jar".to_string(), "libraries".to_string()];
    let cp = build_classpath(&entries, &"game".to_string(), &archives(), Platform::Linux);
    assert_eq!(cp, "game/client.jar:libraries/a.jar:libraries/b.jar");
}

#[test]
fn full_argument_order() {
    let mut p = request();
    p.jvm_args = vec!["-XX:+UseG1GC".to_string()];
    p.client_args = vec!["--demo".to_string()];
    let cmd = build_launch_command(&p, &archives(), &"game/natives".to_string(), Platform::Linux);
    let expected: Vec<String> = vec![
        "-cp",
        "libraries/a.jar:libraries/b.jar",
        "-Xmx2048m",
        "-Xms2048m",
        "-Djava.library.path=game/natives",
        "-XX:+UseG1GC",
        "net.example.Client",
        "--demo",
        "--username",
        "steve",
        "--uuid",
        "uuid-1",
        "--accessToken",
        "tok",
        "--version",
        "1.12.2",
        "--gameDir",
        "game",
        "--assetsDir",
        "assets",
        "--assetIndex",
        "1.12",
        "--userType",
        "mojang",
        "--versionType",
        "release",
    ]
    .into_iter()
    .map(|s| s.to_string())
    .collect();
    assert_eq!(cmd.args, expected);
    assert_eq!(cmd.current_dir, "game");
    assert_eq!(cmd.java_options_env, "-XX:+UseG1GC");
}

#[test]
fn server_flags_trail_only_when_given() {
    let mut p = request();
    p.server_address = Some("play.example.net".to_string());
    let cmd = build_launch_command(&p, &archives(), &"n".to_string(), Platform::Linux);
    let n = cmd.args.len();
    assert_eq!(cmd.args[n - 2], "--server");
    assert_eq!(cmd.args[n - 1], "play.example.net");

    p.server_port = Some(25565);
    let cmd2 = build_launch_command(&p, &archives(), &"n".to_string(), Platform::Linux);
    let m = cmd2.args.len();
    assert_eq!(cmd2.args[m - 4], "--server");
    assert_eq!(cmd2.args[m - 3], "play.example.net");
    assert_eq!(cmd2.args[m - 2], "--port");
    assert_eq!(cmd2.args[m - 1], "25565");
}

#[test]
fn port_without_address_is_ignored() {
    let mut p = request();
    p.server_port = Some(25565);
    let cmd = build_launch_command(&p, &archives(), &"n".to_string(), Platform::Linux);
    assert!(!cmd.args.contains(&"--port".to_string()));
}

#[test]
fn jvm_options_environment_joins_with_spaces() {
    let mut p = request();
    p.jvm_args = vec!["-Xa".to_string(), "-Xb".to_string()];
    let cmd = build_launch_command(&p, &archives(), &"n".to_string(), Platform::Linux);
    assert_eq!(cmd.java_options_env, "-Xa -Xb");
}

#[test]
fn signed_port_rendering() {
    assert_eq!(i32_to_string(0), "0");
    assert_eq!(i32_to_string(25565), "25565");
    assert_eq!(i32_to_string(-1), "-1");
    assert_eq!(i32_to_string(i32::MIN), "-2147483648");
}
