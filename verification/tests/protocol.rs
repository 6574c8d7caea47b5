use capture_agent::protocol::{CaptureEvent, CaptureJobEvents, NativeTarget, PROTOCOL_VERSION};

#[test]
fn events_are_a_standard_json_document() {
    let mut document = CaptureJobEvents::new("job-1");
    document.push(CaptureEvent::CaptureGap {
        reason: "source_closed".to_string(),
        occurred_at_unix_ms: 42,
    });

    assert_eq!(document.job_id, "job-1");
    assert_eq!(document.revision, 1);
    assert_eq!(document.events.len(), 1);
    match &document.events[0] {
        CaptureEvent::CaptureGap {
            reason,
            occurred_at_unix_ms,
        } => {
            assert_eq!(reason, "source_closed");
            assert_eq!(*occurred_at_unix_ms, 42);
        }
        _ => panic!("expected a capture gap"),
    }
}

#[test]
fn new_document_is_empty_at_revision_zero() {
    let document = CaptureJobEvents::new("job-2");
    assert_eq!(document.schema_version, PROTOCOL_VERSION);
    assert_eq!(document.job_id, "job-2");
    assert_eq!(document.revision, 0);
    assert!(document.events.is_empty());
}

#[test]
fn revision_counts_pushed_events() {
    let mut document = CaptureJobEvents::new("job-3");
    for at in 0..5 {
        document.push(CaptureEvent::JobStarted {
            occurred_at_unix_ms: at,
            pid: 7,
        });
    }
    assert_eq!(document.revision, 5);
    assert_eq!(document.events.len(), 5);
}

#[test]
fn target_key_joins_kind_and_value() {
    let target = NativeTarget {
        kind: "x11-window".to_string(),
        value: "0x2a".to_string(),
    };
    assert_eq!(target.key(), "x11-window:0x2a");
}
