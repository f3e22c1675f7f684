use std::str::FromStr;
use zenoh_orbcomm::orb_actions::{
    command_subscription_key, str_eq, ActionKind, Command, Query, UnknownToken, DISCOVERY_KEY,
};

#[test]
fn query_keys_follow_template() {
    assert_eq!(Query::Name.to_key("abc"), "orb/abc/name");
    assert_eq!(Query::Id.to_key("abc"), "orb/abc/id");
    assert_eq!(Query::HardwareVersion.to_key("abc"), "orb/abc/hardware_version");
}

#[test]
fn command_keys_follow_template() {
    assert_eq!(Command::Reboot.to_key("x1"), "orb/x1/command/reboot");
    assert_eq!(Command::Shutdown.to_key("x1"), "orb/x1/command/shutdown");
    assert_eq!(Command::ResetGimbal.to_key("x1"), "orb/x1/command/reset_gimbal");
}

#[test]
fn discovery_key_is_constant() {
    assert_eq!(DISCOVERY_KEY, "orb/id");
}

#[test]
fn parse_recognises_exact_tokens() {
    assert_eq!(Query::parse("name"), Ok(Query::Name));
    assert_eq!(Query::parse("id"), Ok(Query::Id));
    assert_eq!(Query::parse("hardware_version"), Ok(Query::HardwareVersion));
    assert_eq!(Command::parse("reboot"), Ok(Command::Reboot));
    assert_eq!(Command::parse("shutdown"), Ok(Command::Shutdown));
    assert_eq!(Command::parse("reset_gimbal"), Ok(Command::ResetGimbal));
    assert_eq!(Query::from_str("name"), Ok(Query::Name));
    assert_eq!(Command::from_str("reboot"), Ok(Command::Reboot));
}

#[test]
fn parse_refuses_other_strings() {
    for s in ["", "Name", " name", "name ", "nam", "names", "ID", "reboot", "hardware-version"] {
        assert_eq!(Query::parse(s), Err(UnknownToken));
    }
    for s in ["", "Reboot", "reboot ", "shut", "name", "reset-gimbal", "SHUTDOWN"] {
        assert_eq!(Command::parse(s), Err(UnknownToken));
    }
    assert_eq!(ActionKind::parse("orb"), Err(UnknownToken));
}

#[test]
fn parse_inverts_key_suffix() {
    let all = [
        ActionKind::Query(Query::Name),
        ActionKind::Query(Query::Id),
        ActionKind::Query(Query::HardwareVersion),
        ActionKind::Command(Command::Reboot),
        ActionKind::Command(Command::Shutdown),
        ActionKind::Command(Command::ResetGimbal),
    ];
    for a in all {
        let key = a.to_key("node-7");
        let suffix = key.rsplit('/').next().unwrap();
        assert_eq!(ActionKind::parse(suffix), Ok(a));
    }
}

#[test]
fn keys_are_distinct_across_actions_and_nodes() {
    let all = [
        ActionKind::Query(Query::Name),
        ActionKind::Query(Query::Id),
        ActionKind::Query(Query::HardwareVersion),
        ActionKind::Command(Command::Reboot),
        ActionKind::Command(Command::Shutdown),
        ActionKind::Command(Command::ResetGimbal),
    ];
    let ids = ["a", "b", "a/command", "id", "a/b"];
    let mut keys = Vec::new();
    for a in all {
        for id in ids {
            keys.push(a.to_key(id));
        }
    }
    for i in 0..keys.len() {
        for j in 0..keys.len() {
            if i != j {
                assert_ne!(keys[i], keys[j]);
            }
        }
    }
}

#[test]
fn str_eq_compares_exactly() {
    assert!(str_eq("abc", "abc"));
    assert!(!str_eq("abc", "abd"));
    assert!(!str_eq("abc", "ab"));
    assert!(str_eq("", ""));
}

#[test]
fn command_subscription_key_is_wildcard() {
    assert_eq!(command_subscription_key("orb42"), "orb/orb42/command/*");
}

#[test]
fn from_str_refuses_near_misses() {
    for s in ["Name", "ID", " name", "name ", "hardware-version", "hardware", "", "orb/o1/name", "reboot"] {
        assert_eq!(Query::from_str(s), Err(UnknownToken));
    }
    for s in ["Reboot", "SHUTDOWN", " reboot", "reboot ", "reset-gimbal", "resetgimbal", "reset", "", "command/reboot", "name"] {
        assert_eq!(Command::from_str(s), Err(UnknownToken));
    }
    assert_eq!(Query::from_str("hardware_version"), Ok(Query::HardwareVersion));
    assert_eq!(Command::from_str("reset_gimbal"), Ok(Command::ResetGimbal));
}
