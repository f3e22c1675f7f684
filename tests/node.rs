use zenoh_orbcomm::dispatcher::{
    dispatch, final_segment, Dispatch, REBOOT_SHELL, RESET_GIMBAL_REPORT, SHUTDOWN_SHELL,
};
use zenoh_orbcomm::orb_actions::{Command, Query};
use zenoh_orbcomm::registry::{property_value, ResourceMap, NO_SUCH_RESOURCE};
use zenoh_orbcomm::shutdown::{
    BroadcastAction, BroadcastEvent, Broadcaster, Coordinator, NodeAction, NodeEvent, Phase,
};

#[test]
fn registry_round_trip() {
    let m = ResourceMap::new("orb42", "DevOrb", "EVT3");
    assert_eq!(m.respond(&Query::Id.to_key("orb42")), "orb42");
    assert_eq!(m.respond(&Query::Name.to_key("orb42")), "DevOrb");
    assert_eq!(m.respond(&Query::HardwareVersion.to_key("orb42")), "EVT3");
    assert_eq!(m.respond("orb/orb42/other"), NO_SUCH_RESOURCE);
    assert_eq!(m.respond(&Query::Name.to_key("orb43")), "Error: no such resource");
    assert_eq!(m.value_of("orb/orb42/name"), Some("DevOrb".to_string()));
    assert_eq!(m.value_of("orb/orb42/nam"), None);
}

#[test]
fn registry_keys_are_the_three_query_keys() {
    let m = ResourceMap::new("n", "a", "b");
    assert_eq!(m.keys(), vec!["orb/n/id", "orb/n/name", "orb/n/hardware_version"]);
    assert_eq!(m.clone().respond("orb/n/id"), "n");
}

#[test]
fn property_value_trims_or_falls_back() {
    assert_eq!(property_value(true, "  orb-1\n", "UnknownOrb"), "orb-1");
    assert_eq!(property_value(false, "orb-1", "UnknownOrb"), "UnknownOrb");
    assert_eq!(property_value(true, "", "DevOrb"), "");
}

#[test]
fn dispatcher_table() {
    assert_eq!(dispatch("orb/o/command/reboot"), Dispatch::RunShell(REBOOT_SHELL.to_string()));
    assert_eq!(dispatch("orb/o/command/reboot"), Dispatch::RunShell("sudo reboot".to_string()));
    assert_eq!(dispatch("orb/o/command/shutdown"), Dispatch::RunShell(SHUTDOWN_SHELL.to_string()));
    assert_eq!(dispatch("orb/o/command/shutdown"), Dispatch::RunShell("shutdown now".to_string()));
    assert_eq!(
        dispatch("orb/o/command/reset_gimbal"),
        Dispatch::Report("Reset gimbal command executed successfully".to_string())
    );
    assert_eq!(
        dispatch("orb/o/command/dance"),
        Dispatch::Report("Error: Unknown command 'orb/o/command/dance'".to_string())
    );
}

#[test]
fn reset_gimbal_runs_nothing() {
    for id in ["a", "b/c", ""] {
        let d = dispatch(&Command::ResetGimbal.to_key(id));
        assert_eq!(d, Dispatch::Report(RESET_GIMBAL_REPORT.to_string()));
    }
}

#[test]
fn dispatcher_matches_whole_segment_only() {
    assert_eq!(
        dispatch("orb/o/command/xreboot"),
        Dispatch::Report("Error: Unknown command 'orb/o/command/xreboot'".to_string())
    );
    assert_eq!(dispatch("reboot"), Dispatch::RunShell("sudo reboot".to_string()));
}

#[test]
fn final_segment_cases() {
    assert_eq!(final_segment("a/b/c"), "c");
    assert_eq!(final_segment("abc"), "abc");
    assert_eq!(final_segment("a/"), "");
    assert_eq!(final_segment(""), "");
}

#[test]
fn broadcaster_stops_publishing() {
    let mut b = Broadcaster::new("orb9");
    assert_eq!(b.node_id(), "orb9");
    assert_eq!(b.step(BroadcastEvent::Tick), BroadcastAction::Publish);
    assert_eq!(b.step(BroadcastEvent::Tick), BroadcastAction::Publish);
    assert_eq!(b.step(BroadcastEvent::Stop), BroadcastAction::Exit);
    assert!(b.is_stopped());
    assert_eq!(b.step(BroadcastEvent::Tick), BroadcastAction::Idle);
    assert_eq!(b.step(BroadcastEvent::Stop), BroadcastAction::Idle);
}

#[test]
fn shutdown_after_dispatcher_closure() {
    let mut c = Coordinator::new();
    let mut b = Broadcaster::new("orb9");
    assert_eq!(b.step(BroadcastEvent::Tick), BroadcastAction::Publish);
    assert_eq!(c.step(NodeEvent::DispatcherEnded), NodeAction::StopBroadcaster);
    assert_eq!(c.phase(), Phase::Draining);
    assert_eq!(c.step(NodeEvent::TerminationRequested), NodeAction::Wait);
    assert_eq!(b.step(BroadcastEvent::Stop), BroadcastAction::Exit);
    assert_ne!(b.step(BroadcastEvent::Tick), BroadcastAction::Publish);
    assert_eq!(c.phase(), Phase::Draining);
    assert_eq!(c.step(NodeEvent::BroadcasterExited), NodeAction::Exit);
    assert_eq!(c.phase(), Phase::Finished);
}

#[test]
fn shutdown_after_termination_request() {
    let mut c = Coordinator::new();
    assert_eq!(c.step(NodeEvent::BroadcasterExited), NodeAction::Wait);
    assert_eq!(c.phase(), Phase::Serving);
    assert_eq!(c.step(NodeEvent::TerminationRequested), NodeAction::StopBroadcaster);
    assert_eq!(c.step(NodeEvent::DispatcherEnded), NodeAction::Wait);
    assert_eq!(c.step(NodeEvent::BroadcasterExited), NodeAction::Exit);
    assert_eq!(c.step(NodeEvent::BroadcasterExited), NodeAction::Wait);
}
