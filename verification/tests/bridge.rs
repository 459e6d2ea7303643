use echotype_core::bridge::{BridgeState, BridgeConfig, SpawnOutcome, ReadEvent, PollVerdict,
    CallScript, poll_read, finish_call, run_call};
use echotype_core::json::JsonValue;
use echotype_core::errors::BridgeError;

fn s(t: &str) -> String {
    String::from(t)
}

fn ok_script(reply: &str, at: u64) -> CallScript {
    CallScript {
        spawn_first: SpawnOutcome::Spawned,
        exited: false,
        spawn_again: SpawnOutcome::Spawned,
        write_error: None,
        reads: vec![(at, ReadEvent::Line(s(reply)))],
    }
}

#[test]
fn defaults() {
    let cfg = BridgeConfig::default();
    assert_eq!(cfg.timeout_ms, 10_000);
    assert_eq!(cfg.poll_interval_ms, 10);
}

#[test]
fn happy_path_spawns_once_and_returns_result() {
    let mut st = BridgeState::new();
    let r = run_call(
        &mut st,
        "get_settings",
        10_000,
        0,
        ok_script("{\"ok\":true,\"result\":{}}", 5),
    );
    assert_eq!(r, Ok(JsonValue::Obj(vec![])));
    assert!(st.running);
    assert_eq!(st.generation, 1);
    assert_eq!(st.last_response_ms, 5);
}

#[test]
fn second_call_reuses_the_helper() {
    let mut st = BridgeState::new();
    let _ = run_call(&mut st, "a", 10_000, 0, ok_script("{\"ok\":true}", 1));
    let _ = run_call(&mut st, "b", 10_000, 10, ok_script("{\"ok\":true}", 12));
    assert_eq!(st.generation, 1, "a healthy helper is not respawned");
}

#[test]
fn timeout_within_deadline_then_one_respawn() {
    let mut st = BridgeState::new();
    // Polls see no data; the attempt just past the deadline fails the call.
    let script = CallScript {
        spawn_first: SpawnOutcome::Spawned,
        exited: false,
        spawn_again: SpawnOutcome::Spawned,
        write_error: None,
        reads: vec![
            (100, ReadEvent::NoData),
            (5_000, ReadEvent::NoData),
            (10_000, ReadEvent::NoData),
            (10_010, ReadEvent::NoData),
        ],
    };
    let r = run_call(&mut st, "stop_recording", 10_000, 0, script);
    assert_eq!(
        r,
        Err(BridgeError::HelperTimeout { command: s("stop_recording"), elapsed_ms: 10_010 })
    );
    assert!(!st.running, "a timed-out helper loses its handle");
    assert_eq!(st.generation, 1);

    // The next call triggers exactly one respawn attempt.
    let r2 = run_call(&mut st, "get_settings", 10_000, 20_000, ok_script("{\"ok\":true}", 20_001));
    assert_eq!(r2, Ok(JsonValue::Null));
    assert_eq!(st.generation, 2, "exactly one new spawn");
    assert!(st.running);
}

#[test]
fn helper_not_found() {
    let mut st = BridgeState::new();
    let script = CallScript {
        spawn_first: SpawnOutcome::NotFound(s("/opt/helper")),
        exited: false,
        spawn_again: SpawnOutcome::Spawned,
        write_error: None,
        reads: vec![(0, ReadEvent::NoData), (20_000, ReadEvent::NoData)],
    };
    let r = run_call(&mut st, "x", 10_000, 0, script);
    assert_eq!(r, Err(BridgeError::HelperNotFound(s("/opt/helper"))));
    assert!(!st.running);
    assert_eq!(st.generation, 0);
}

#[test]
fn spawn_os_error() {
    let mut st = BridgeState::new();
    let script = CallScript {
        spawn_first: SpawnOutcome::OsError(s("EPERM")),
        exited: false,
        spawn_again: SpawnOutcome::Spawned,
        write_error: None,
        reads: vec![(20_000, ReadEvent::NoData)],
    };
    assert_eq!(run_call(&mut st, "x", 10_000, 0, script), Err(BridgeError::SpawnFailed(s("EPERM"))));
}

#[test]
fn dead_helper_is_respawned_before_the_send() {
    let mut st = BridgeState::new();
    let _ = run_call(&mut st, "a", 10_000, 0, ok_script("{\"ok\":true}", 1));
    let script = CallScript {
        spawn_first: SpawnOutcome::Spawned,
        exited: true,
        spawn_again: SpawnOutcome::Spawned,
        write_error: None,
        reads: vec![(20, ReadEvent::Line(s("{\"ok\":true}")))],
    };
    let r = run_call(&mut st, "b", 10_000, 10, script);
    assert_eq!(r, Ok(JsonValue::Null));
    assert_eq!(st.generation, 2, "the dead helper was replaced once");
}

#[test]
fn respawn_failure_is_helper_unavailable() {
    let mut st = BridgeState::new();
    let _ = run_call(&mut st, "a", 10_000, 0, ok_script("{\"ok\":true}", 1));
    let script = CallScript {
        spawn_first: SpawnOutcome::Spawned,
        exited: true,
        spawn_again: SpawnOutcome::NotFound(s("/gone")),
        write_error: None,
        reads: vec![(20_000, ReadEvent::NoData)],
    };
    assert_eq!(run_call(&mut st, "b", 10_000, 10, script), Err(BridgeError::HelperUnavailable));
    assert!(!st.running);
}

#[test]
fn write_failure_clears_the_handle() {
    let mut st = BridgeState::new();
    let script = CallScript {
        spawn_first: SpawnOutcome::Spawned,
        exited: false,
        spawn_again: SpawnOutcome::Spawned,
        write_error: Some(s("broken pipe")),
        reads: vec![(20_000, ReadEvent::NoData)],
    };
    assert_eq!(
        run_call(&mut st, "x", 10_000, 0, script),
        Err(BridgeError::TransportError(s("Write error: broken pipe")))
    );
    assert!(!st.running);
}

#[test]
fn eof_is_helper_closed() {
    let mut st = BridgeState::new();
    let script = CallScript {
        spawn_first: SpawnOutcome::Spawned,
        exited: false,
        spawn_again: SpawnOutcome::Spawned,
        write_error: None,
        reads: vec![(3, ReadEvent::Eof)],
    };
    assert_eq!(run_call(&mut st, "x", 10_000, 0, script), Err(BridgeError::HelperClosed));
    assert!(!st.running);
}

#[test]
fn read_error_is_transport_error() {
    let mut st = BridgeState::new();
    let script = CallScript {
        spawn_first: SpawnOutcome::Spawned,
        exited: false,
        spawn_again: SpawnOutcome::Spawned,
        write_error: None,
        reads: vec![(3, ReadEvent::IoError(s("EBADF")))],
    };
    assert_eq!(
        run_call(&mut st, "x", 10_000, 0, script),
        Err(BridgeError::TransportError(s("Read error: EBADF")))
    );
}

#[test]
fn unparsable_reply_is_protocol_error_and_drops_the_handle() {
    let mut st = BridgeState::new();
    let script = CallScript {
        spawn_first: SpawnOutcome::Spawned,
        exited: false,
        spawn_again: SpawnOutcome::Spawned,
        write_error: None,
        reads: vec![(3, ReadEvent::Line(s("not json")))],
    };
    assert_eq!(
        run_call(&mut st, "x", 10_000, 0, script),
        Err(BridgeError::ProtocolError(s("not json")))
    );
    assert!(!st.running, "unparsable output destroys the handle");

    // The next call respawns exactly once.
    let r2 = run_call(&mut st, "y", 10_000, 100, ok_script("{\"ok\":true}", 101));
    assert_eq!(r2, Ok(JsonValue::Null));
    assert_eq!(st.generation, 2);
}

#[test]
fn poll_read_decisions() {
    match poll_read("c", 0, 5, 10_000, ReadEvent::Line(s("x"))) {
        PollVerdict::Deliver(l) => assert_eq!(l, "x"),
        _ => panic!("a line is delivered"),
    }
    assert_eq!(poll_read("c", 0, 10_000, 10_000, ReadEvent::NoData), PollVerdict::Wait);
    match poll_read("c", 0, 10_001, 10_000, ReadEvent::NoData) {
        PollVerdict::Abort(BridgeError::HelperTimeout { command, elapsed_ms }) => {
            assert_eq!(command, "c");
            assert_eq!(elapsed_ms, 10_001);
        },
        _ => panic!("past the deadline the call times out"),
    }
}

#[test]
fn finish_call_reads_the_reply() {
    assert_eq!(
        finish_call(s("{\"ok\":true,\"result\":3}")),
        Ok(JsonValue::Num(s("3")))
    );
    assert_eq!(
        finish_call(s("{{nope")),
        Err(BridgeError::ProtocolError(s("{{nope")))
    );
}

#[test]
fn replies_match_their_own_requests() {
    // Strict alternation under the serialized call protocol: each call
    // consumes exactly the one reply produced for it.
    let mut st = BridgeState::new();
    let first = run_call(&mut st, "get_settings", 10_000, 0,
        ok_script("{\"ok\":true,\"result\":\"for-first\"}", 1));
    let second = run_call(&mut st, "get_history", 10_000, 10,
        ok_script("{\"ok\":true,\"result\":\"for-second\"}", 12));
    assert_eq!(first, Ok(JsonValue::Str(s("for-first"))));
    assert_eq!(second, Ok(JsonValue::Str(s("for-second"))));
}
