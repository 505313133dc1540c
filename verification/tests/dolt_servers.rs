//! Finding, starting and stopping database servers.

use beads_backend::dolt_manager::{
    ConnectAction, ConnectAttempt, ConnectEvent, DoltServerManager, ServerState,
};
use beads_backend::dolt_server::{
    build_connection, free_port_error, locate_db_dir, pool_bounds, server_command, spawn_error,
    wait_for_ready, DbDir, DirEntry, DoltConnection, PortError, SpawnError, WaitStep,
    FIRST_DELAY_MS,
};
use beads_backend::error::BeadsError;
use beads_backend::path::PathParts;

fn path(names: &[&str]) -> PathParts {
    PathParts { components: names.iter().map(|n| n.as_bytes().to_vec()).collect() }
}

fn dir(name: &str) -> DirEntry {
    DirEntry { name: Some(name.to_string()), is_dir: true }
}

fn file(name: &str) -> DirEntry {
    DirEntry { name: Some(name.to_string()), is_dir: false }
}

fn failed(text: &str) -> BeadsError {
    BeadsError::CommandFailed(text.to_string())
}

fn located(db_name: &str) -> Result<DbDir, BeadsError> {
    Ok(DbDir { entry: 0, db_name: db_name.to_string() })
}

fn connection(port: u16, database: &str) -> DoltConnection {
    DoltConnection {
        host: "127.0.0.1".to_string(),
        port,
        database: database.to_string(),
        min_connections: 1,
        max_connections: 5,
    }
}

fn probe(port: u16) -> ConnectAction {
    ConnectAction::Probe { host: "127.0.0.1".to_string(), port }
}

fn probed(open: bool, elapsed_ms: u128) -> ConnectEvent<u32> {
    ConnectEvent::Probed { open, elapsed_ms }
}

#[test]
fn test_locate_db_dir_finds_first_subdir() {
    let listing = Ok(vec![dir("beads_MyProject")]);
    let db = locate_db_dir("/p/.beads/dolt", &listing).unwrap();
    assert_eq!(db.db_name, "beads_MyProject");
    assert_eq!(db.entry, 0);
}

#[test]
fn test_locate_db_dir_replaces_hyphens() {
    let listing = Ok(vec![dir("beads_My-Project")]);
    let db = locate_db_dir("/p/.beads/dolt", &listing).unwrap();
    assert_eq!(db.db_name, "beads_My_Project");
}

#[test]
fn test_locate_db_dir_missing_returns_error() {
    let listing = Err("No such file or directory (os error 2)".to_string());
    let result = locate_db_dir("/p/.beads/dolt", &listing);
    assert!(result.is_err());
    match result.unwrap_err() {
        BeadsError::CommandFailed(text) => assert_eq!(
            text,
            "cannot read dolt directory /p/.beads/dolt: No such file or directory (os error 2)"
        ),
        other => panic!("expected CommandFailed, got {other:?}"),
    }
}

#[test]
fn test_locate_db_dir_empty_dolt_dir_returns_error() {
    let result = locate_db_dir("/p/.beads/dolt", &Ok(vec![]));
    assert!(result.is_err());
    assert_eq!(result, Err(failed("no dolt database directory found under /p/.beads/dolt")));
}

#[test]
fn files_are_no_databases() {
    let listing = Ok(vec![file("server.json"), dir("one-db"), dir("two")]);
    assert_eq!(
        locate_db_dir("/p", &listing),
        Ok(DbDir { entry: 1, db_name: "one_db".to_string() })
    );
    let listing = Ok(vec![file("server.json")]);
    assert_eq!(
        locate_db_dir("/p", &listing),
        Err(failed("no dolt database directory found under /p"))
    );
    let listing = Ok(vec![DirEntry { name: None, is_dir: true }]);
    assert_eq!(locate_db_dir("/p", &listing), Ok(DbDir { entry: 0, db_name: String::new() }));
}

#[test]
fn pools_have_bounds_that_do_not_exclude_each_other() {
    assert_eq!(pool_bounds(1, 5), Ok((1, 5)));
    assert_eq!(pool_bounds(3, 3), Ok((3, 3)));
    assert_eq!(pool_bounds(2, 1), Err(failed("invalid pool constraints")));
}

#[test]
fn connections_name_host_port_and_database() {
    assert_eq!(build_connection("127.0.0.1", 3307, "beads_test"), Ok(connection(3307, "beads_test")));
}

#[test]
fn servers_are_started_with_these_arguments() {
    assert_eq!(server_command(3307), ["sql-server", "--host", "127.0.0.1", "--port", "3307"]);
    assert_eq!(server_command(0)[4], "0");
    assert_eq!(server_command(65535)[4], "65535");
}

#[test]
fn failures_to_start_are_told() {
    assert_eq!(
        free_port_error(&PortError::Bind("denied".to_string())),
        failed("failed to find free port: denied")
    );
    assert_eq!(
        free_port_error(&PortError::Address("lost".to_string())),
        failed("failed to get local address: lost")
    );
    assert_eq!(
        spawn_error(&SpawnError::NotFound),
        failed("dolt binary not found \u{2014} please install dolt and ensure it is on PATH")
    );
    assert_eq!(
        spawn_error(&SpawnError::Other("denied".to_string())),
        failed("failed to spawn dolt sql-server: denied")
    );
}

#[test]
fn waits_double_up_to_the_longest_one() {
    let mut delays = vec![];
    let mut delay: u64 = FIRST_DELAY_MS;
    for _ in 0..8 {
        match wait_for_ready("127.0.0.1", 3307, 10000, delay, false, 0) {
            WaitStep::Retry { delay_ms, next_ms } => {
                delays.push(delay_ms);
                delay = next_ms;
            }
            other => panic!("expected a retry, got {other:?}"),
        }
    }
    assert_eq!(delays, [100, 200, 400, 800, 1600, 3200, 3200, 3200]);
}

#[test]
fn waiting_ends_when_the_server_answers_or_the_time_is_over() {
    assert_eq!(wait_for_ready("127.0.0.1", 3307, 10000, 100, true, 0), WaitStep::Ready);
    assert_eq!(wait_for_ready("127.0.0.1", 3307, 10000, 100, true, 10000), WaitStep::Ready);
    assert_eq!(
        wait_for_ready("127.0.0.1", 3307, 10000, 3200, false, 6300),
        WaitStep::Retry { delay_ms: 3200, next_ms: 3200 }
    );
    assert_eq!(
        wait_for_ready("127.0.0.1", 3307, 10000, 3200, false, 10000),
        WaitStep::GiveUp(failed(
            "dolt sql-server did not become ready on 127.0.0.1:3307 within 10s"
        ))
    );
    assert_eq!(
        wait_for_ready("h", 1, 2999, u64::MAX, false, 0),
        WaitStep::Retry { delay_ms: 2949, next_ms: 3200 }
    );
    assert_eq!(
        wait_for_ready("h", 1, 2999, 100, false, 2999),
        WaitStep::GiveUp(failed("dolt sql-server did not become ready on h:1 within 2s"))
    );
}

#[test]
fn a_server_that_answers_after_the_time_limit_is_not_ready() {
    let late = WaitStep::GiveUp(failed(
        "dolt sql-server did not become ready on 127.0.0.1:3307 within 10s",
    ));
    assert_eq!(wait_for_ready("127.0.0.1", 3307, 10000, 3200, true, 10001), late);
    assert_eq!(wait_for_ready("127.0.0.1", 3307, 10000, 3200, true, 12700), late);
    assert_eq!(wait_for_ready("127.0.0.1", 3307, 10000, 100, true, 99999), late);
}

#[test]
fn the_last_waits_leave_time_for_a_probe() {
    let mut waits = vec![];
    let mut elapsed: u128 = 0;
    let mut delay: u64 = FIRST_DELAY_MS;
    loop {
        match wait_for_ready("127.0.0.1", 3307, 10000, delay, false, elapsed) {
            WaitStep::Retry { delay_ms, next_ms } => {
                waits.push(delay_ms);
                elapsed += u128::from(delay_ms);
                delay = next_ms;
            }
            WaitStep::GiveUp(_) => break,
            WaitStep::Ready => panic!("nothing answered"),
        }
    }
    assert_eq!(waits, [100, 200, 400, 800, 1600, 3200, 3200, 450, 50]);
    assert_eq!(elapsed, 10000);
}

#[test]
fn test_dolt_server_manager_new_is_empty() {
    let mgr: DoltServerManager<u32> = DoltServerManager::new();
    assert!(mgr.is_empty());
}

#[test]
fn a_project_without_a_database_is_not_connected_to() {
    let attempt = ConnectAttempt::begin(Err(failed("none")));
    assert_eq!(attempt.action(), ConnectAction::End(Err(failed("none"))));
}

#[test]
fn a_running_server_is_reused() {
    let mut manager: DoltServerManager<u32> = DoltServerManager::new();
    let project = path(&["/", "p"]);
    let mut attempt = ConnectAttempt::begin(located("beads"));
    assert_eq!(attempt.action(), ConnectAction::Recall);
    let state = ServerState { port: 3307, db_name: "beads_saved".to_string() };
    let result =
        manager.get_connection(&project, &mut attempt, ConnectEvent::Recalled(Some(state)));
    assert_eq!(result, (probe(3307), None));
    let result = manager.get_connection(&project, &mut attempt, probed(true, 0));
    assert_eq!(result, (ConnectAction::End(Ok(connection(3307, "beads_saved"))), None));
    assert!(manager.is_empty());
}

#[test]
fn a_server_is_started_where_none_runs() {
    let mut manager: DoltServerManager<u32> = DoltServerManager::new();
    let project = path(&["/", "p"]);
    let mut attempt = ConnectAttempt::begin(located("beads"));
    let state = ServerState { port: 3307, db_name: "beads".to_string() };
    let mut step = |event| {
        let (action, released) = manager.get_connection(&project, &mut attempt, event);
        assert_eq!(released, None);
        action
    };
    assert_eq!(step(ConnectEvent::Recalled(Some(state))), probe(3307));
    assert_eq!(step(probed(false, 0)), ConnectAction::FindPort);
    assert_eq!(
        step(ConnectEvent::PortFound(Ok(4000))),
        ConnectAction::Spawn { arguments: server_command(4000) }
    );
    assert_eq!(step(ConnectEvent::Spawned(Ok(17))), probe(4000));
    assert_eq!(step(probed(false, 5)), ConnectAction::Wait { delay_ms: 100 });
    assert_eq!(step(ConnectEvent::Waited), probe(4000));
    assert_eq!(step(probed(false, 110)), ConnectAction::Wait { delay_ms: 200 });
    assert_eq!(step(ConnectEvent::Waited), probe(4000));
    assert_eq!(
        step(probed(true, 320)),
        ConnectAction::Save(ServerState { port: 4000, db_name: "beads".to_string() })
    );
    assert_eq!(
        step(ConnectEvent::Saved),
        ConnectAction::End(Ok(connection(4000, "beads")))
    );
    assert!(!manager.is_empty());
    assert_eq!(manager.stop(&path(&["/", "q"])), None);
    assert_eq!(manager.stop(&project), Some(17));
    assert_eq!(manager.stop(&project), None);
    assert!(manager.is_empty());
}

#[test]
fn failures_end_an_attempt() {
    let project = path(&["/", "p"]);
    let mut manager: DoltServerManager<u32> = DoltServerManager::new();

    let mut attempt = ConnectAttempt::begin(located("beads"));
    let _ = manager.get_connection(&project, &mut attempt, ConnectEvent::Recalled(None));
    let error = Err(PortError::Bind("denied".to_string()));
    assert_eq!(
        manager.get_connection(&project, &mut attempt, ConnectEvent::PortFound(error)).0,
        ConnectAction::End(Err(failed("failed to find free port: denied")))
    );

    let mut attempt = ConnectAttempt::begin(located("beads"));
    let _ = manager.get_connection(&project, &mut attempt, ConnectEvent::Recalled(None));
    let _ = manager.get_connection(&project, &mut attempt, ConnectEvent::PortFound(Ok(4000)));
    let error = Err(SpawnError::Other("denied".to_string()));
    assert_eq!(
        manager.get_connection(&project, &mut attempt, ConnectEvent::Spawned(error)).0,
        ConnectAction::End(Err(failed("failed to spawn dolt sql-server: denied")))
    );
    assert!(manager.is_empty());

    let mut attempt = ConnectAttempt::begin(located("beads"));
    let _ = manager.get_connection(&project, &mut attempt, ConnectEvent::Recalled(None));
    let _ = manager.get_connection(&project, &mut attempt, ConnectEvent::PortFound(Ok(4000)));
    let _ = manager.get_connection(&project, &mut attempt, ConnectEvent::Spawned(Ok(5)));
    assert_eq!(
        manager.get_connection(&project, &mut attempt, probed(false, 10000)).0,
        ConnectAction::End(Err(failed(
            "dolt sql-server did not become ready on 127.0.0.1:4000 within 10s"
        )))
    );
    // The process that did not answer is still there to be stopped.
    assert_eq!(manager.stop(&project), Some(5));
}

#[test]
fn events_that_nothing_waits_for_change_nothing() {
    let project = path(&["/", "p"]);
    let mut manager: DoltServerManager<u32> = DoltServerManager::new();
    let mut attempt = ConnectAttempt::begin(located("beads"));
    for event in [
        ConnectEvent::Waited,
        ConnectEvent::Saved,
        ConnectEvent::PortFound(Ok(1)),
        ConnectEvent::Probed { open: true, elapsed_ms: 0 },
    ] {
        assert_eq!(
            manager.get_connection(&project, &mut attempt, event),
            (ConnectAction::Recall, None)
        );
    }
    // A process that nothing waits for is handed back.
    assert_eq!(
        manager.get_connection(&project, &mut attempt, ConnectEvent::Spawned(Ok(9))),
        (ConnectAction::Recall, Some(9))
    );
    assert!(manager.is_empty());
}

/// Starts the process `child` for the project `name`, and gives the process
/// that has to be stopped because of it.
fn start(manager: &mut DoltServerManager<u32>, name: &str, child: u32) -> Option<u32> {
    let project = path(&["/", name]);
    let mut attempt = ConnectAttempt::begin(located("beads"));
    let _ = manager.get_connection(&project, &mut attempt, ConnectEvent::Recalled(None));
    let _ = manager.get_connection(&project, &mut attempt, ConnectEvent::PortFound(Ok(9)));
    manager.get_connection(&project, &mut attempt, ConnectEvent::Spawned(Ok(child))).1
}

#[test]
fn no_process_is_lost() {
    let mut manager: DoltServerManager<u32> = DoltServerManager::new();
    assert_eq!(start(&mut manager, "a", 1), None);
    assert_eq!(start(&mut manager, "b", 2), None);
    assert_eq!(start(&mut manager, "c", 3), None);
    // The process that did not answer makes room for the next one.
    assert_eq!(start(&mut manager, "b", 4), Some(2));
    assert_eq!(manager.stop(&path(&["/", "a"])), Some(1));
    let mut children = manager.stop_all();
    children.sort();
    assert_eq!(children, [3, 4]);
    assert!(manager.is_empty());
    assert!(manager.stop_all().is_empty());
}

#[test]
fn a_server_that_answers_too_late_ends_an_attempt() {
    let project = path(&["/", "p"]);
    let mut manager: DoltServerManager<u32> = DoltServerManager::new();
    let mut attempt = ConnectAttempt::begin(located("beads"));
    let mut step = |event| manager.get_connection(&project, &mut attempt, event).0;
    let _ = step(ConnectEvent::Recalled(None));
    let _ = step(ConnectEvent::PortFound(Ok(4000)));
    let _ = step(ConnectEvent::Spawned(Ok(5)));
    assert_eq!(step(probed(false, 9950)), ConnectAction::Wait { delay_ms: 50 });
    assert_eq!(step(ConnectEvent::Waited), probe(4000));
    assert_eq!(
        step(probed(true, 10001)),
        ConnectAction::End(Err(failed(
            "dolt sql-server did not become ready on 127.0.0.1:4000 within 10s"
        )))
    );
}
