use capture_agent::registry::is_lease_file;
use capture_agent::protocol::{AgentLease, AgentState, NativeTarget};
use capture_agent::registry::{counts_by_target, fresh_leases, LeaseGuard};

fn lease(agent: &str, target: &str) -> AgentLease {
    let native = NativeTarget {
        kind: "windows-hwnd".into(),
        value: target.into(),
    };
    AgentLease {
        schema_version: 1,
        agent_id: agent.into(),
        job_id: agent.into(),
        pid: 1,
        target_key: native.key(),
        target: native,
        output_directory: "out".into(),
        state: AgentState::Capturing,
        started_at_unix_ms: 1,
        heartbeat_at_unix_ms: 1,
        segments: 0,
        recorded_duration_ms: 0,
    }
}

#[test]
fn counts_multiple_agents_for_the_same_window() {
    let counts = counts_by_target(&[
        lease("a", "0x1"),
        lease("b", "0x1"),
        lease("c", "0x2"),
        lease("d", "0x1"),
    ]);
    assert_eq!(counts.count("windows-hwnd:0x1"), 3);
    assert_eq!(counts.count("windows-hwnd:0x2"), 1);
}

#[test]
fn counts_nothing_for_unknown_targets() {
    let counts = counts_by_target(&[lease("a", "0x1")]);
    assert_eq!(counts.count("windows-hwnd:0x9"), 0);
    assert_eq!(counts.len(), 1);
    assert_eq!(counts_by_target(&[]).len(), 0);
}

#[test]
fn stale_leases_are_dropped() {
    let mut old = lease("old", "0x1");
    old.heartbeat_at_unix_ms = 1_000;
    let mut recent = lease("recent", "0x2");
    recent.heartbeat_at_unix_ms = 7_000;
    let mut edge = lease("edge", "0x3");
    edge.heartbeat_at_unix_ms = 4_000;
    let mut future = lease("future", "0x4");
    future.heartbeat_at_unix_ms = 20_000;
    let fresh = fresh_leases(vec![old, recent, edge, future], 10_000);
    let agents: Vec<&str> = fresh.iter().map(|lease| lease.agent_id.as_str()).collect();
    assert_eq!(agents, vec!["recent", "edge", "future"]);
}

#[test]
fn lease_guard_starts_and_updates() {
    let target = NativeTarget {
        kind: "x11-window".into(),
        value: "0x2a".into(),
    };
    let mut guard = LeaseGuard::new(
        "agent-7".into(),
        "job-7".into(),
        target,
        "/tmp/out".into(),
        99,
        5_000,
    );
    assert_eq!(guard.file_name(), "agent-7.json");
    assert_eq!(guard.lease().state, AgentState::Starting);
    assert_eq!(guard.lease().target_key, "x11-window:0x2a");
    assert_eq!(guard.lease().heartbeat_at_unix_ms, 5_000);
    guard.update(AgentState::Capturing, 3, 15_000, 9_000);
    assert_eq!(guard.lease().state, AgentState::Capturing);
    assert_eq!(guard.lease().segments, 3);
    assert_eq!(guard.lease().recorded_duration_ms, 15_000);
    assert_eq!(guard.lease().heartbeat_at_unix_ms, 9_000);
    assert_eq!(guard.lease().started_at_unix_ms, 5_000);
}

#[test]
fn lease_files_end_in_json() {
    assert!(is_lease_file("agent-1.json"));
    assert!(!is_lease_file("agent-1.json.tmp"));
    assert!(!is_lease_file(".json"));
    assert!(!is_lease_file("json"));
}
