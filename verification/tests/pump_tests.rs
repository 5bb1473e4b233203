//! Scenario tests for the session registry and the I/O pump: echo replay,
//! typing latency, late attach, resize coalescing, upload concurrency,
//! failed authentication and idempotent disconnect.

use nexashell::pump::ReadEvent;
use nexashell::ssh::{
    EstablishFailure, ProbeFailure, PumpOutcome, SessionId, SshError, SshManager,
};
use nexashell::upload::{TransportFlag, UploadPhase};

fn sid(s: &str) -> SessionId {
    SessionId(s.to_string())
}

fn connect(mgr: &mut SshManager, id: &str, now: u64) {
    let r = mgr.connect_ssh(
        sid(id),
        "198.51.100.7".to_string(),
        22,
        "alice".to_string(),
        Ok(()),
        now,
    );
    assert!(r.is_ok());
}

fn step(mgr: &mut SshManager, id: &str, read: ReadEvent, now: u64) -> PumpOutcome {
    mgr.pump_step(&sid(id), read, now).expect("session exists")
}

#[test]
fn echo_banner_is_replayed_with_seq_one() {
    // S1: a shell that echoes READY on start; the replay holds one chunk
    // whose output includes READY and whose seq is 1.
    let mut mgr = SshManager::new();
    connect(&mut mgr, "s1", 0);
    // the banner arrives at once; 6 bytes stay under the 200-byte initial
    // threshold, so nothing is emitted yet
    match step(&mut mgr, "s1", ReadEvent::Data(b"READY\n".to_vec()), 0) {
        PumpOutcome::Idle => {}
        _ => panic!("no emission before a threshold is crossed"),
    }
    // past the 100 ms initial time threshold the banner is flushed
    match step(&mut mgr, "s1", ReadEvent::WouldBlock, 101) {
        PumpOutcome::Emitted(c) => {
            assert_eq!(c.seq, 1);
            assert!(c.output.contains("READY"));
        }
        _ => panic!("the time threshold forces an emission"),
    }
    let replay = mgr.get_buffered_ssh_output(&sid("s1")).unwrap();
    assert_eq!(replay.len(), 1);
    assert_eq!(replay[0].seq, 1);
    assert!(replay[0].output.contains("READY"));
    // the replay is idempotent
    let replay2 = mgr.get_buffered_ssh_output(&sid("s1")).unwrap();
    assert_eq!(replay2.len(), 1);
}

#[test]
fn typed_input_echo_arrives_with_later_seq() {
    // S2: send "echo hi\n"; the echoed output arrives in a chunk with a
    // sequence number above 1 within the normal 20 ms time threshold.
    let mut mgr = SshManager::new();
    connect(&mut mgr, "s2", 0);
    match step(&mut mgr, "s2", ReadEvent::Data(b"$ ".to_vec()), 0) {
        PumpOutcome::Idle => {}
        _ => panic!("prompt is below both initial thresholds"),
    }
    match step(&mut mgr, "s2", ReadEvent::WouldBlock, 150) {
        PumpOutcome::Emitted(c) => assert_eq!(c.seq, 1),
        _ => panic!("prompt flushes on the time threshold"),
    }
    mgr.send_ssh_input(&sid("s2"), "echo hi\n".to_string()).unwrap();
    let inputs = mgr.take_inputs(&sid("s2")).unwrap();
    assert_eq!(inputs, vec!["echo hi\n".to_string()]);
    // the remote echoes; 30 ms after the last emission the chunk is out
    match step(&mut mgr, "s2", ReadEvent::Data(b"hi\n".to_vec()), 160) {
        PumpOutcome::Idle => {}
        _ => panic!("3 bytes under the normal size threshold"),
    }
    match step(&mut mgr, "s2", ReadEvent::WouldBlock, 181) {
        PumpOutcome::Emitted(c) => {
            assert!(c.seq > 1);
            assert!(c.output.contains("hi\n"));
            assert!(c.ts <= 160 + 200, "echo observed within 200 ms of the input");
        }
        _ => panic!("the normal time threshold forces the echo out"),
    }
}

#[test]
fn late_attach_replay_is_exactly_the_window() {
    // S3: 3 s after connect, the replay holds exactly the chunks stamped
    // inside the 2 s initial buffering window.
    let mut mgr = SshManager::new();
    connect(&mut mgr, "s3", 0);
    step(&mut mgr, "s3", ReadEvent::Data(b"first".to_vec()), 50);
    match step(&mut mgr, "s3", ReadEvent::WouldBlock, 151) {
        PumpOutcome::Emitted(c) => assert_eq!((c.seq, c.ts), (1, 151)),
        _ => panic!("first flush inside the window"),
    }
    // 849 ms have passed since the last emission, far over the normal
    // 20 ms threshold, so the read itself flushes
    match step(&mut mgr, "s3", ReadEvent::Data(b"second".to_vec()), 1000) {
        PumpOutcome::Emitted(c) => assert_eq!((c.seq, c.ts), (2, 1000)),
        _ => panic!("second flush inside the window"),
    }
    // bytes that arrive as the window expires are flushed but not replayed
    match step(&mut mgr, "s3", ReadEvent::Data(b"third".to_vec()), 2500) {
        PumpOutcome::Emitted(c) => assert_eq!((c.seq, c.ts), (3, 2500)),
        _ => panic!("window expiry flushes pending bytes"),
    }
    let replay = mgr.get_buffered_ssh_output(&sid("s3")).unwrap();
    assert_eq!(replay.len(), 2);
    assert!(replay.iter().all(|c| c.ts <= 2000));
    assert_eq!(replay[0].output, "first");
    assert_eq!(replay[1].output, "second");
    // the drainable queue still carries the full stream, gap-free
    let all = mgr.get_session_output(&sid("s3")).unwrap();
    let seqs: Vec<u64> = all.iter().map(|c| c.seq).collect();
    assert_eq!(seqs, vec![1, 2, 3]);
    // drained chunks are gone
    assert!(mgr.get_session_output(&sid("s3")).unwrap().is_empty());
}

#[test]
fn resize_requests_coalesce_to_most_recent() {
    // S4 (model side): of resize requests arriving faster than they are
    // applied, only the most recent geometry is kept.
    let mut mgr = SshManager::new();
    connect(&mut mgr, "s4", 0);
    mgr.set_resize(&sid("s4"), 80, 24).unwrap();
    mgr.set_resize(&sid("s4"), 132, 40).unwrap();
    let r = mgr.take_resize(&sid("s4")).unwrap().expect("a resize is pending");
    assert_eq!((r.cols, r.rows), (132, 40));
    assert!(mgr.take_resize(&sid("s4")).unwrap().is_none());
}

#[test]
fn resize_after_stop_is_ignored() {
    let mut mgr = SshManager::new();
    connect(&mut mgr, "s4b", 0);
    match step(&mut mgr, "s4b", ReadEvent::Closed, 10) {
        PumpOutcome::Stopped => {}
        _ => panic!("a closed channel stops the pump"),
    }
    // the resize listener is a no-op once the stop flag is set
    mgr.set_resize(&sid("s4b"), 10, 10).unwrap();
    assert!(mgr.take_resize(&sid("s4b")).unwrap().is_none());
}

#[test]
fn shell_makes_progress_during_upload() {
    // S5 (model side): between two upload chunks the transport is free and
    // non-blocking, and the pump emits an answer to "pwd\n".
    let mut mgr = SshManager::new();
    connect(&mut mgr, "s5", 0);
    let mut task = mgr
        .upload_file_sftp(
            &sid("s5"),
            "t-1".to_string(),
            "/tmp/big.bin".to_string(),
            "/home/alice/big.bin".to_string(),
            0,
        )
        .unwrap();
    assert_eq!(task.state, UploadPhase::Pending);
    task.total_bytes = 4 * 1024 * 1024;
    let mut transport = TransportFlag::new();

    let p1 = task.apply_chunk(&mut transport, Ok(512 * 1024), 100).unwrap();
    assert!(!transport.blocking, "blocking restored after the chunk");
    assert_eq!(p1.uploaded_bytes, 512 * 1024);
    assert_eq!(p1.status, UploadPhase::Uploading);

    // while the upload sleeps, the shell answers pwd
    mgr.send_ssh_input(&sid("s5"), "pwd\n".to_string()).unwrap();
    assert_eq!(mgr.take_inputs(&sid("s5")).unwrap().len(), 1);
    match step(&mut mgr, "s5", ReadEvent::Data(b"/home/alice\n".to_vec()), 120) {
        PumpOutcome::Emitted(c) => assert!(c.output.contains("/home/alice")),
        _ => panic!("the shell keeps emitting during the upload"),
    }

    let p2 = task.apply_chunk(&mut transport, Ok(512 * 1024), 200).unwrap();
    assert!(!transport.blocking);
    assert_eq!(p2.uploaded_bytes, 1024 * 1024);
    assert_eq!(p2.progress, 25); // 1 MiB of 4 MiB
    assert_eq!(p2.speed, 1024 * 1024 * 1000 / 200); // bytes per second

    let done = task.finish(400);
    assert_eq!(done.status, UploadPhase::Success);
    assert_eq!(done.progress, 100);
    assert_eq!(done.uploaded_bytes, 4 * 1024 * 1024);
}

#[test]
fn upload_chunk_failure_reports_error_and_restores_flag() {
    let mut mgr = SshManager::new();
    connect(&mut mgr, "s5b", 0);
    let mut task = mgr
        .upload_file_sftp(
            &sid("s5b"),
            "t-2".to_string(),
            "/tmp/a".to_string(),
            "/remote/a".to_string(),
            0,
        )
        .unwrap();
    let mut transport = TransportFlag::new();
    let e = task
        .apply_chunk(
            &mut transport,
            Err(nexashell::upload::UploadFailure::Write("pipe closed".to_string())),
            50,
        )
        .unwrap_err();
    assert!(!transport.blocking, "blocking restored on the error path too");
    assert_eq!(e.status, UploadPhase::Error);
    assert_eq!(
        e.error.as_deref(),
        Some("SSH operation failed: Failed to write to remote file: pipe closed")
    );
    assert_eq!(task.state, UploadPhase::Error);
}

#[test]
fn auth_failure_leaves_no_session() {
    // S6: a bad password yields AuthenticationFailed and no session
    // appears in the registry.
    let mut mgr = SshManager::new();
    let r = mgr.connect_ssh(
        sid("s6"),
        "198.51.100.7".to_string(),
        22,
        "alice".to_string(),
        Err(EstablishFailure::Auth),
        0,
    );
    match r {
        Err(SshError::AuthenticationFailed(m)) => {
            assert_eq!(m, "Invalid credentials");
        }
        _ => panic!("authentication failure expected"),
    }
    assert!(!mgr.has_session(&sid("s6")));
}

#[test]
fn connection_failure_message_carries_host_and_port() {
    let mut mgr = SshManager::new();
    let r = mgr.connect_ssh(
        sid("s7"),
        "bad.example".to_string(),
        2222,
        "alice".to_string(),
        Err(EstablishFailure::Tcp("connection refused".to_string())),
        0,
    );
    match r {
        // the host field of the error already carries "host:port", and the
        // display message appends the port once more, as the wire format
        // always has
        Err(e) => assert_eq!(
            e.message(),
            "Failed to connect to bad.example:2222:2222 - connection refused"
        ),
        _ => panic!("tcp failure expected"),
    }
}

#[test]
fn handshake_failure_is_a_connection_failure() {
    let mut mgr = SshManager::new();
    let r = mgr.connect_ssh(
        sid("s7b"),
        "203.0.113.5".to_string(),
        22,
        "alice".to_string(),
        Err(EstablishFailure::Handshake("kex mismatch".to_string())),
        0,
    );
    match r {
        Err(SshError::ConnectionFailed { host, port, reason }) => {
            assert_eq!(host, "203.0.113.5:22");
            assert_eq!(port, 22);
            assert_eq!(reason, "Handshake failed: kex mismatch");
        }
        _ => panic!("handshake failure is a connection failure"),
    }
    assert!(!mgr.has_session(&sid("s7b")));
}

#[test]
fn status_events_wait_for_the_first_output_chunk() {
    let mut mgr = SshManager::new();
    connect(&mut mgr, "s13", 0);
    // before any emission, status and upload-progress events are held
    assert!(!mgr.first_output_emitted(&sid("s13")).unwrap());
    step(&mut mgr, "s13", ReadEvent::Data(b"banner".to_vec()), 0);
    assert!(!mgr.first_output_emitted(&sid("s13")).unwrap());
    match step(&mut mgr, "s13", ReadEvent::WouldBlock, 150) {
        PumpOutcome::Emitted(_) => {}
        _ => panic!("the time threshold forces the banner out"),
    }
    assert!(mgr.first_output_emitted(&sid("s13")).unwrap());
    match mgr.first_output_emitted(&sid("missing")) {
        Err(SshError::SessionNotFound(id)) => assert_eq!(id, "missing"),
        _ => panic!("SessionNotFound expected"),
    }
}

#[test]
fn failed_input_writes_are_recorded_not_fatal() {
    let mut mgr = SshManager::new();
    connect(&mut mgr, "s14", 0);
    mgr.record_write_error(&sid("s14"), "flush failed: broken pipe".to_string()).unwrap();
    mgr.record_write_error(&sid("s14"), "write failed: pipe closed".to_string()).unwrap();
    // input errors do not tear the session down
    match step(&mut mgr, "s14", ReadEvent::WouldBlock, 10) {
        PumpOutcome::Idle => {}
        _ => panic!("the pump continues after an input error"),
    }
    let errors = mgr.take_write_errors(&sid("s14")).unwrap();
    assert_eq!(
        errors,
        vec![
            "flush failed: broken pipe".to_string(),
            "write failed: pipe closed".to_string()
        ]
    );
    assert!(mgr.take_write_errors(&sid("s14")).unwrap().is_empty());
    match mgr.record_write_error(&sid("missing"), "x".to_string()) {
        Err(SshError::SessionNotFound(id)) => assert_eq!(id, "missing"),
        _ => panic!("SessionNotFound expected"),
    }
}

#[test]
fn disconnect_is_idempotent_and_input_then_fails() {
    // P5: two disconnects both return ok; send_input afterwards reports
    // SessionNotFound.
    let mut mgr = SshManager::new();
    connect(&mut mgr, "p5", 0);
    assert!(mgr.disconnect_ssh(&sid("p5")).is_ok());
    assert!(mgr.disconnect_ssh(&sid("p5")).is_ok());
    match mgr.send_ssh_input(&sid("p5"), "ls\n".to_string()) {
        Err(SshError::SessionNotFound(id)) => assert_eq!(id, "p5"),
        _ => panic!("SessionNotFound expected"),
    }
}

#[test]
fn stopped_pump_rejects_input_and_reports_stopped() {
    let mut mgr = SshManager::new();
    connect(&mut mgr, "s8", 0);
    match step(&mut mgr, "s8", ReadEvent::Closed, 10) {
        PumpOutcome::Stopped => {}
        _ => panic!("a closed channel stops the pump"),
    }
    match mgr.send_ssh_input(&sid("s8"), "x".to_string()) {
        Err(SshError::ChannelError(m)) => assert_eq!(m, "Failed to send input"),
        _ => panic!("input on a stopped session fails"),
    }
    match step(&mut mgr, "s8", ReadEvent::WouldBlock, 20) {
        PumpOutcome::Stopped => {}
        _ => panic!("the pump stays stopped"),
    }
}

#[test]
fn invalid_bytes_decode_to_replacement_character() {
    let mut mgr = SshManager::new();
    connect(&mut mgr, "s9", 0);
    step(&mut mgr, "s9", ReadEvent::Data(vec![0xff, 0xfe]), 0);
    match step(&mut mgr, "s9", ReadEvent::WouldBlock, 150) {
        PumpOutcome::Emitted(c) => assert_eq!(c.output, "\u{fffd}\u{fffd}"),
        _ => panic!("pending bytes flush on the time threshold"),
    }
}

#[test]
fn size_threshold_forces_immediate_emission() {
    let mut mgr = SshManager::new();
    connect(&mut mgr, "s10", 0);
    // 201 bytes cross the 200-byte initial size threshold with no delay
    let big = vec![b'x'; 201];
    match step(&mut mgr, "s10", ReadEvent::Data(big), 0) {
        PumpOutcome::Emitted(c) => {
            assert_eq!(c.seq, 1);
            assert_eq!(c.output.len(), 201);
        }
        _ => panic!("the size threshold forces an emission"),
    }
}

#[test]
fn probe_trims_and_restores_blocking() {
    // P7 for the probe, and the trim of its output.
    let mut mgr = SshManager::new();
    connect(&mut mgr, "s11", 0);
    let mut transport = TransportFlag::new();
    let r = mgr
        .probe_remote_path(&sid("s11"), &mut transport, Ok("  /home/alice\r\n".to_string()))
        .unwrap();
    assert_eq!(r, "/home/alice");
    assert!(!transport.blocking);
    let e = mgr
        .probe_remote_path(
            &sid("s11"),
            &mut transport,
            Err(ProbeFailure::ChannelOpen("no channel".to_string())),
        )
        .unwrap_err();
    assert_eq!(e.message(), "Channel error: Failed to create probe channel: no channel");
    assert!(!transport.blocking);
    let e = mgr
        .probe_remote_path(
            &sid("s11"),
            &mut transport,
            Err(ProbeFailure::Exec("exec refused".to_string())),
        )
        .unwrap_err();
    assert_eq!(e.message(), "SSH operation failed: exec refused");
    let e = mgr
        .probe_remote_path(
            &sid("s11"),
            &mut transport,
            Err(ProbeFailure::Join("worker lost".to_string())),
        )
        .unwrap_err();
    assert_eq!(e.message(), "Task join error: worker lost");
    // a probe on an unknown session reports the miss
    match mgr.probe_remote_path(&sid("nope"), &mut transport, Ok("x".to_string())) {
        Err(SshError::SessionNotFound(id)) => assert_eq!(id, "nope"),
        _ => panic!("SessionNotFound expected"),
    }
}

#[test]
fn disconnect_all_empties_the_registry() {
    let mut mgr = SshManager::new();
    connect(&mut mgr, "a", 0);
    connect(&mut mgr, "b", 0);
    assert!(mgr.has_session(&sid("a")) && mgr.has_session(&sid("b")));
    mgr.disconnect_all();
    assert!(!mgr.has_session(&sid("a")) && !mgr.has_session(&sid("b")));
}

#[test]
fn lock_poisoned_and_task_error_messages_render() {
    assert_eq!(
        SshError::LockPoisoned("poisoned".to_string()).message(),
        "State lock poisoned: poisoned"
    );
    assert_eq!(
        SshError::TaskError("join failed".to_string()).message(),
        "Task join error: join failed"
    );
    assert_eq!(
        SshError::SessionNotFound("s".to_string()).message(),
        "Session not found: s"
    );
    assert_eq!(
        SshError::OperationFailed("op".to_string()).message(),
        "SSH operation failed: op"
    );
}
