use alauncher::registry::{ExitProbe, ProcessRegistry, SpawnOutcome};

#[test]
fn identifiers_are_sequential_and_unique() {
    let mut reg = ProcessRegistry::new();
    let a = reg.generate_process_id();
    let b = reg.generate_process_id();
    let c = reg.generate_process_id();
    assert_eq!(a, "game_process_1");
    assert_eq!(b, "game_process_2");
    assert_eq!(c, "game_process_3");
    assert_ne!(a, b);
    assert_ne!(b, c);
    assert_ne!(a, c);
}

#[test]
fn identifier_never_reused_after_removal() {
    let mut reg = ProcessRegistry::new();
    let r1 = reg.launch_game_client(SpawnOutcome::Spawned, 0);
    let id1 = r1.process_id.unwrap();
    reg.kill_game_process(&id1).unwrap();
    let r2 = reg.launch_game_client(SpawnOutcome::Spawned, 0);
    let id2 = r2.process_id.unwrap();
    assert_ne!(id1, id2);
}

#[test]
fn successful_launch_registers_record() {
    let mut reg = ProcessRegistry::new();
    let r = reg.launch_game_client(SpawnOutcome::Spawned, 1234);
    assert!(r.success);
    assert!(r.error.is_none());
    let id = r.process_id.unwrap();
    assert_eq!(id, "game_process_1");
    let status = reg.check_game_process(&id, ExitProbe::Running).unwrap();
    assert!(status.running);
    assert!(status.exit_code.is_none());
    assert!(status.stdout.is_none());
    assert!(status.stderr.is_none());
}

#[test]
fn failed_spawn_registers_nothing() {
    let mut reg = ProcessRegistry::new();
    let r = reg.launch_game_client(SpawnOutcome::Failed("no such file".to_string()), 0);
    assert!(!r.success);
    assert!(r.process_id.is_none());
    assert_eq!(r.error.unwrap(), "Failed to launch game: no such file");
    let unknown = "game_process_1".to_string();
    assert!(reg.check_game_process(&unknown, ExitProbe::Running).is_err());
}

#[test]
fn poll_after_exit_reports_code_and_output() {
    let mut reg = ProcessRegistry::new();
    let r = reg.launch_game_client(SpawnOutcome::Spawned, 0);
    let id = r.process_id.unwrap();
    assert!(reg.append_output(&id, false, &b"hello ".to_vec()));
    assert!(reg.append_output(&id, false, &b"world".to_vec()));
    assert!(reg.append_output(&id, true, &b"warn".to_vec()));
    let status = reg.check_game_process(&id, ExitProbe::Exited(Some(0))).unwrap();
    assert!(!status.running);
    assert_eq!(status.exit_code, Some(0));
    assert_eq!(status.stdout.unwrap(), "hello world");
    assert_eq!(status.stderr.unwrap(), "warn");
}

#[test]
fn lossy_decoding_replaces_invalid_bytes() {
    let mut reg = ProcessRegistry::new();
    let r = reg.launch_game_client(SpawnOutcome::Spawned, 0);
    let id = r.process_id.unwrap();
    assert!(reg.append_output(&id, false, &vec![0xff]));
    let status = reg.check_game_process(&id, ExitProbe::Exited(None)).unwrap();
    assert_eq!(status.stdout.unwrap(), "\u{FFFD}");
    assert_eq!(status.exit_code, None);
}

#[test]
fn poll_of_unknown_identifier_reports_not_found() {
    let reg = ProcessRegistry::new();
    let e = reg.check_game_process(&"game_process_9".to_string(), ExitProbe::Running);
    assert_eq!(e.unwrap_err(), "Process not found");
}

#[test]
fn kill_twice_second_not_found() {
    let mut reg = ProcessRegistry::new();
    let r = reg.launch_game_client(SpawnOutcome::Spawned, 0);
    let id = r.process_id.unwrap();
    let first = reg.kill_game_process(&id);
    assert!(first.is_ok());
    assert_eq!(first.unwrap().identifier, id);
    let second = reg.kill_game_process(&id);
    assert_eq!(second.unwrap_err(), "Process not found");
    let polled = reg.check_game_process(&id, ExitProbe::Running);
    assert_eq!(polled.unwrap_err(), "Process not found");
}

#[test]
fn kill_leaves_other_records_alone() {
    let mut reg = ProcessRegistry::new();
    let a = reg.launch_game_client(SpawnOutcome::Spawned, 0).process_id.unwrap();
    let b = reg.launch_game_client(SpawnOutcome::Spawned, 0).process_id.unwrap();
    reg.kill_game_process(&a).unwrap();
    assert!(reg.check_game_process(&b, ExitProbe::Running).is_ok());
    assert!(reg.check_game_process(&a, ExitProbe::Running).is_err());
}

#[test]
fn cleanup_removes_exactly_the_exited() {
    let mut reg = ProcessRegistry::new();
    let a = reg.launch_game_client(SpawnOutcome::Spawned, 0).process_id.unwrap();
    let b = reg.launch_game_client(SpawnOutcome::Spawned, 0).process_id.unwrap();
    let c = reg.launch_game_client(SpawnOutcome::Spawned, 0).process_id.unwrap();
    let removed = reg.cleanup_dead_processes(&vec![a.clone(), c.clone()]);
    assert_eq!(removed, vec![a.clone(), c.clone()]);
    assert!(reg.check_game_process(&a, ExitProbe::Running).is_err());
    assert!(reg.check_game_process(&b, ExitProbe::Running).is_ok());
    assert!(reg.check_game_process(&c, ExitProbe::Running).is_err());
}

#[test]
fn append_after_removal_finds_nothing() {
    let mut reg = ProcessRegistry::new();
    let id = reg.launch_game_client(SpawnOutcome::Spawned, 0).process_id.unwrap();
    reg.kill_game_process(&id).unwrap();
    assert!(!reg.append_output(&id, false, &b"late".to_vec()));
}
