use ctt::status::{DisplayFormat, IssueStatus, TargetStatus, ToOffline};

#[test]
fn issue_status_wire_names() {
    assert_eq!(IssueStatus::OPEN.wire_name(), "OPEN");
    assert_eq!(IssueStatus::OPENING.wire_name(), "OPENING");
    assert_eq!(IssueStatus::CLOSED.wire_name(), "CLOSED");
    assert_eq!(IssueStatus::CLOSING.wire_name(), "CLOSING");
}

#[test]
fn issue_status_display_names() {
    assert_eq!(IssueStatus::OPEN.display_name(), "Open");
    assert_eq!(IssueStatus::OPENING.display_name(), "Opening");
    assert_eq!(IssueStatus::CLOSED.display_name(), "Closed");
    assert_eq!(IssueStatus::CLOSING.display_name(), "Closing");
}

#[test]
fn issue_status_parse_round_trip() {
    for st in [IssueStatus::OPEN, IssueStatus::OPENING, IssueStatus::CLOSED, IssueStatus::CLOSING] {
        assert_eq!(IssueStatus::parse_wire(st.wire_name()), Some(st));
    }
}

#[test]
fn issue_status_parse_rejects_other_text() {
    assert_eq!(IssueStatus::parse_wire("open"), None);
    assert_eq!(IssueStatus::parse_wire("Open"), None);
    assert_eq!(IssueStatus::parse_wire(""), None);
    assert_eq!(IssueStatus::parse_wire("OPENED"), None);
    assert_eq!(IssueStatus::parse_wire("OPEN "), None);
}

#[test]
fn to_offline_names() {
    assert_eq!(ToOffline::Node.wire_name(), "NODE");
    assert_eq!(ToOffline::Card.wire_name(), "CARD");
    assert_eq!(ToOffline::Blade.wire_name(), "BLADE");
    assert_eq!(ToOffline::Nothing.wire_name(), "NONE");
    assert_eq!(ToOffline::Node.display_name(), "Node");
    assert_eq!(ToOffline::Card.display_name(), "Card");
    assert_eq!(ToOffline::Blade.display_name(), "Blade");
    assert_eq!(ToOffline::Nothing.display_name(), "None");
}

#[test]
fn to_offline_parse() {
    for t in [ToOffline::Node, ToOffline::Card, ToOffline::Blade, ToOffline::Nothing] {
        assert_eq!(ToOffline::parse_wire(t.wire_name()), Some(t));
    }
    assert_eq!(ToOffline::parse_wire("Node"), None);
    assert_eq!(ToOffline::parse_wire("NODES"), None);
}

#[test]
fn target_status_names_and_rank() {
    assert_eq!(TargetStatus::ONLINE.wire_name(), "ONLINE");
    assert_eq!(TargetStatus::DRAINING.wire_name(), "DRAINING");
    assert_eq!(TargetStatus::OFFLINE.wire_name(), "OFFLINE");
    assert_eq!(TargetStatus::DOWN.wire_name(), "DOWN");
    assert_eq!(TargetStatus::ONLINE.display_name(), "Online");
    assert_eq!(TargetStatus::DOWN.display_name(), "Down");
    assert!(TargetStatus::ONLINE.rank() < TargetStatus::DRAINING.rank());
    assert!(TargetStatus::DRAINING.rank() < TargetStatus::OFFLINE.rank());
    assert!(TargetStatus::OFFLINE.rank() < TargetStatus::DOWN.rank());
    for t in [TargetStatus::ONLINE, TargetStatus::DRAINING, TargetStatus::OFFLINE, TargetStatus::DOWN] {
        assert_eq!(TargetStatus::parse_wire(t.wire_name()), Some(t));
    }
    assert_eq!(TargetStatus::parse_wire("UP"), None);
}

#[test]
fn display_format_default_is_human() {
    assert_eq!(DisplayFormat::default(), DisplayFormat::Human);
}
