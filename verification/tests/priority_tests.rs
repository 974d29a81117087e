//! The priority handler: updates are announced once and only when they
//! change something.

use quictrans::priority::{HFrame, Priority, PriorityHandler};
use quictrans::streams::StreamId;

#[test]
fn priority_updates_ignore_same() {
    let mut p = PriorityHandler::new(false, Priority::new(5, false));
    assert!(!p.maybe_update_priority(Priority::new(5, false)));
    // updating with the same priority -> there should not be any priority frame sent
    assert!(p.maybe_encode_frame(StreamId::new(4)).is_none());
}

#[test]
fn priority_updates_send_update() {
    let mut p = PriorityHandler::new(false, Priority::new(5, false));
    assert!(p.maybe_update_priority(Priority::new(6, false)));
    // updating with the a different priority -> there should be a priority frame sent
    assert!(p.maybe_encode_frame(StreamId::new(4)).is_some());
}

#[test]
fn multiple_priority_updates_ignore_same() {
    let mut p = PriorityHandler::new(false, Priority::new(5, false));
    assert!(p.maybe_update_priority(Priority::new(6, false)));
    assert!(p.maybe_update_priority(Priority::new(5, false)));
    // initial and last priority same -> there should not be any priority frame sent
    assert!(p.maybe_encode_frame(StreamId::new(4)).is_none());
}

#[test]
fn multiple_priority_updates_send_update() {
    let mut p = PriorityHandler::new(false, Priority::new(5, false));
    assert!(p.maybe_update_priority(Priority::new(6, false)));
    assert!(p.maybe_update_priority(Priority::new(7, false)));
    // updating two times with a different priority -> the last priority update should be in the
    // next frame
    let expected = HFrame::PriorityUpdateRequest {
        element_id: 4,
        priority: Priority::new(7, false),
    };
    assert_eq!(p.maybe_encode_frame(StreamId::new(4)), Some(expected));
}

#[test]
fn priority_updates_incremental() {
    let mut p = PriorityHandler::new(false, Priority::new(5, false));
    assert!(p.maybe_update_priority(Priority::new(5, true)));
    // updating the incremental parameter -> there should be a priority frame sent
    let expected = HFrame::PriorityUpdateRequest {
        element_id: 4,
        priority: Priority::new(5, true),
    };
    assert_eq!(p.maybe_encode_frame(StreamId::new(4)), Some(expected));
}

#[test]
fn priority_field_value_round_trips() {
    // Serializing any priority and parsing it back gives the same priority.
    for urgency in 0..8u8 {
        for incremental in [false, true] {
            let p = Priority::new(urgency, incremental);
            let serialized = p.field_value();
            let parsed = Priority::from_bytes(serialized.as_bytes()).unwrap();
            assert_eq!(parsed, p);
        }
    }
}

#[test]
fn priority_parse_defaults_and_errors() {
    // Absent keys default to urgency 3, not incremental.
    assert_eq!(
        Priority::from_bytes(b"").unwrap(),
        Priority::new(3, false)
    );
    // Out-of-range urgency falls back to the default.
    assert_eq!(
        Priority::from_bytes(b"u=8, i").unwrap(),
        Priority::new(3, true)
    );
    // Wrong types are ignored.
    assert_eq!(
        Priority::from_bytes(b"u=?1, i=3").unwrap(),
        Priority::new(3, false)
    );
    // Broken syntax is an error.
    assert!(Priority::from_bytes(b"u=\x01").is_err());
}

#[test]
fn priority_header() {
    assert!(Priority::new(3, false).header().is_none());
    let h = Priority::new(5, true).header().unwrap();
    assert_eq!(h.name(), "priority");
    assert_eq!(h.value(), "u=5,i");
    let h2 = Priority::new(3, true).header().unwrap();
    assert_eq!(h2.value(), "i");
    let h3 = Priority::new(0, false).header().unwrap();
    assert_eq!(h3.value(), "u=0");
}
