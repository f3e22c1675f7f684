use zenoh_orbcomm::client::{
    command_key, discovery_continues, query_key, DiscoverySet, QueryIssuer, ReplyEvent,
    DISCOVERY_WINDOW_MS, RECEIVE_TIMEOUT_MS,
};
use zenoh_orbcomm::orb_actions::UnknownToken;

#[test]
fn client_keys_validate_locally() {
    assert_eq!(query_key("name", "o1"), Ok("orb/o1/name".to_string()));
    assert_eq!(query_key("hardware_version", "o1"), Ok("orb/o1/hardware_version".to_string()));
    assert_eq!(query_key("reboot", "o1"), Err(UnknownToken));
    assert_eq!(command_key("shutdown", "o1"), Ok("orb/o1/command/shutdown".to_string()));
    assert_eq!(command_key("name", "o1"), Err(UnknownToken));
}

#[test]
fn discovery_dedups_in_first_seen_order() {
    let mut s = DiscoverySet::new();
    assert!(s.is_empty());
    assert!(s.observe("A"));
    assert!(s.observe("B"));
    assert!(!s.observe("A"));
    assert!(s.observe("C"));
    assert_eq!(s.len(), 3);
    assert_eq!(s.get(0), "A");
    assert_eq!(s.get(1), "B");
    assert_eq!(s.get(2), "C");
}

#[test]
fn discovery_window_bounds_listening() {
    assert_eq!(DISCOVERY_WINDOW_MS, 3000);
    assert_eq!(RECEIVE_TIMEOUT_MS, 1000);
    assert!(discovery_continues(0));
    assert!(discovery_continues(2999));
    assert!(!discovery_continues(3000));
    assert!(!discovery_continues(3001));
}

#[test]
fn issuer_with_no_replies_reports_nothing() {
    let mut q = QueryIssuer::new();
    assert_eq!(q.on_event(ReplyEvent::TimedOut), None);
    assert!(q.is_finished());
}

#[test]
fn issuer_reports_each_reply_then_finishes() {
    let mut q = QueryIssuer::new();
    let mut got = Vec::new();
    for ev in [
        ReplyEvent::Reply("DevOrb".to_string()),
        ReplyEvent::Reply("Error: no such resource".to_string()),
        ReplyEvent::Reply("x".to_string()),
        ReplyEvent::TimedOut,
        ReplyEvent::Reply("late".to_string()),
    ] {
        if let Some(p) = q.on_event(ev) {
            got.push(p);
        }
    }
    assert_eq!(got, vec!["DevOrb", "Error: no such resource", "x"]);
    assert!(q.is_finished());
}

#[test]
fn issuer_finishes_on_closed_channel() {
    let mut q = QueryIssuer::new();
    assert_eq!(q.on_event(ReplyEvent::Reply("v".to_string())), Some("v".to_string()));
    assert!(!q.is_finished());
    assert_eq!(q.on_event(ReplyEvent::Closed), None);
    assert!(q.is_finished());
}
