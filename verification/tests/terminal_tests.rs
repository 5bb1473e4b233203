//! Tests for the local-PTY side: shell choice, the reader state machine
//! and the session registry.

use nexashell::pump::ReadEvent;
use nexashell::terminal::{
    default_shell, SessionId, SpawnFailure, TerminalError, TerminalIo, TerminalManager,
};

fn tid(s: &str) -> SessionId {
    SessionId(s.to_string())
}

#[test]
fn shell_choice_follows_platform_and_environment() {
    assert_eq!(default_shell(Some("/bin/fish".to_string()), false), "/bin/fish");
    assert_eq!(default_shell(None, false), "zsh");
    assert_eq!(default_shell(Some("/bin/fish".to_string()), true), "powershell.exe");
    assert_eq!(default_shell(None, true), "powershell.exe");
}

#[test]
fn reader_numbers_chunks_without_gaps() {
    let mut io = TerminalIo::new();
    let a = io.step(ReadEvent::Data(b"one".to_vec()), 10).unwrap();
    assert_eq!((a.seq, a.ts, a.output.as_str()), (1, 10, "one"));
    let none = io.step(ReadEvent::WouldBlock, 15);
    assert!(none.is_none());
    let b = io.step(ReadEvent::Data(b"two".to_vec()), 20).unwrap();
    assert_eq!((b.seq, b.output.as_str()), (2, "two"));
    assert!(!io.stopped);
}

#[test]
fn empty_read_is_end_of_file() {
    let mut io = TerminalIo::new();
    assert!(io.step(ReadEvent::Data(Vec::new()), 5).is_none());
    assert!(io.stopped);
}

#[test]
fn read_error_stops_the_reader() {
    let mut io = TerminalIo::new();
    assert!(io.step(ReadEvent::Failed, 5).is_none());
    assert!(io.stopped);
}

#[test]
fn registry_tracks_connect_and_disconnect() {
    let mut mgr = TerminalManager::new();
    assert!(mgr.connect_local(tid("t1"), Ok(())).is_ok());
    // a failed spawn leaves the registry unchanged
    let e = mgr
        .connect_local(tid("t2"), Err(SpawnFailure::OpenPty("no pty".to_string())))
        .unwrap_err();
    match e {
        TerminalError::SpawnFailed(m) => assert_eq!(m, "Failed to open PTY: no pty"),
        _ => panic!("SpawnFailed expected"),
    }
    // disconnect is idempotent
    assert!(mgr.disconnect_local(&tid("t1")).is_ok());
    assert!(mgr.disconnect_local(&tid("t1")).is_ok());
    assert!(mgr.disconnect_local(&tid("t2")).is_ok());
}

#[test]
fn spawn_failure_messages_name_the_step() {
    let mut mgr = TerminalManager::new();
    // the display message prefixes the variant text onto the step text,
    // so a failed shell spawn names the step twice
    let cases: Vec<(SpawnFailure, &str)> = vec![
        (
            SpawnFailure::Spawn("bad shell".to_string()),
            "Failed to spawn shell: Failed to spawn shell: bad shell",
        ),
        (
            SpawnFailure::CloneReader("gone".to_string()),
            "Failed to spawn shell: Failed to clone reader: gone",
        ),
        (
            SpawnFailure::TakeWriter("taken".to_string()),
            "Failed to spawn shell: Failed to take writer: taken",
        ),
    ];
    for (f, want) in cases {
        let e = mgr.connect_local(tid("x"), Err(f)).unwrap_err();
        assert_eq!(e.message(), want);
    }
    assert_eq!(
        TerminalError::SessionNotFound("t".to_string()).message(),
        "Session not found: t"
    );
    assert_eq!(
        TerminalError::LockPoisoned("p".to_string()).message(),
        "State lock poisoned: p"
    );
}
