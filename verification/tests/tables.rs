use ctt::clock::{local_time, Stamp, EARLIEST_SECS, LATEST_SECS};
use ctt::listing::{comment_table, issue_list_table, issue_table, least_advanced_of, Shade, TableSpec};
use ctt::order::listing_order;
use ctt::queries::get_issue::{GetIssueIssue, GetIssueIssueComments, GetIssueIssueTarget};
use ctt::queries::list_issues::{ListIssuesIssues, ListIssuesIssuesTarget};
use ctt::status::{IssueStatus, TargetStatus, ToOffline};

// 2024-01-02T03:04:05Z
const T0: i64 = 1704164645;

fn stamp(secs: i64, nanos: u32) -> Stamp {
    Stamp { secs, nanos }
}

fn cells(t: &TableSpec, row: usize) -> Vec<(String, Shade)> {
    t.rows[row].iter().map(|c| (c.text.clone(), c.shade)).collect()
}

fn target(name: &str, status: TargetStatus) -> ListIssuesIssuesTarget {
    ListIssuesIssuesTarget { name: name.to_string(), status }
}

fn listed(id: i32, at: Stamp, related: Vec<TargetStatus>) -> ListIssuesIssues {
    ListIssuesIssues {
        assigned_to: None,
        id,
        title: format!("issue {id}"),
        to_offline: Some(ToOffline::Node),
        updated_at: at,
        target: Some(target("node1", TargetStatus::ONLINE)),
        related: related.into_iter().map(|s| target("n", s)).collect(),
    }
}

#[test]
fn local_time_text() {
    assert_eq!(local_time(stamp(T0, 0), 0), Some("2024-01-02 03:04:05".to_string()));
    assert_eq!(local_time(stamp(T0, 500), 3600), Some("2024-01-02 04:04:05".to_string()));
    assert_eq!(local_time(stamp(T0, 0), -7 * 3600), Some("2024-01-01 20:04:05".to_string()));
    assert_eq!(local_time(stamp(T0, 0), 86400), None);
    assert_eq!(local_time(stamp(i64::MAX, 0), 0), None);
}

#[test]
fn listing_order_is_stable() {
    let keys = vec![stamp(5, 0), stamp(3, 0), stamp(5, 0), stamp(3, 1), stamp(1, 0)];
    assert_eq!(listing_order(&keys), vec![4, 1, 3, 0, 2]);
    assert_eq!(listing_order(&vec![]), Vec::<usize>::new());
}

#[test]
fn least_advanced_state() {
    assert_eq!(least_advanced_of(&vec![TargetStatus::OFFLINE, TargetStatus::DRAINING, TargetStatus::DOWN]), TargetStatus::DRAINING);
    assert_eq!(least_advanced_of(&vec![TargetStatus::DOWN]), TargetStatus::DOWN);
    assert_eq!(least_advanced_of(&vec![TargetStatus::DOWN, TargetStatus::ONLINE]), TargetStatus::ONLINE);
}

#[test]
fn issue_list_rows() {
    let mut late = listed(2, stamp(T0 + 60, 0), vec![TargetStatus::OFFLINE]);
    late.assigned_to = Some("alice".to_string());
    late.to_offline = None;
    let early = listed(1, stamp(T0, 0), vec![TargetStatus::OFFLINE, TargetStatus::DRAINING]);
    let table = issue_list_table(&vec![late, early], 0).unwrap();
    assert_eq!(table.header, vec!["id", "target", "ctt status", "Enforce", "assignee", "last updated", "title"]);
    assert_eq!(table.max_row_height, Some(3));
    assert_eq!(table.rows.len(), 2);
    assert_eq!(
        cells(&table, 0),
        vec![
            ("1".to_string(), Shade::Plain),
            ("node1".to_string(), Shade::Plain),
            ("Draining".to_string(), Shade::Yellow),
            ("Node".to_string(), Shade::Plain),
            ("NONE".to_string(), Shade::Plain),
            ("2024-01-02 03:04:05".to_string(), Shade::Plain),
            ("issue 1".to_string(), Shade::Plain),
        ]
    );
    assert_eq!(
        cells(&table, 1),
        vec![
            ("2".to_string(), Shade::Plain),
            ("node1".to_string(), Shade::Plain),
            ("Offline".to_string(), Shade::Green),
            ("NONE".to_string(), Shade::Red),
            ("alice".to_string(), Shade::Plain),
            ("2024-01-02 03:05:05".to_string(), Shade::Plain),
            ("issue 2".to_string(), Shade::Plain),
        ]
    );
}

#[test]
fn issue_list_refuses_unwritable_time() {
    let bad = listed(1, stamp(i64::MAX, 0), vec![TargetStatus::DOWN]);
    assert!(issue_list_table(&vec![bad], 0).is_none());
    assert!(issue_list_table(&vec![], 0).unwrap().rows.is_empty());
}

fn shown() -> GetIssueIssue {
    GetIssueIssue {
        assigned_to: None,
        created_at: stamp(T0, 0),
        created_by: "bob".to_string(),
        description: "fan failure".to_string(),
        to_offline: Some(ToOffline::Blade),
        id: 9,
        issue_status: IssueStatus::CLOSING,
        title: "replace fan".to_string(),
        comments: vec![
            GetIssueIssueComments { created_by: "bob".to_string(), comment: "seen".to_string(), created_at: stamp(T0, 0) },
            GetIssueIssueComments { created_by: "eve".to_string(), comment: "done".to_string(), created_at: stamp(T0 - 3600, 0) },
        ],
        target: Some(GetIssueIssueTarget { name: "blade7".to_string(), status: TargetStatus::OFFLINE }),
        related: vec![
            GetIssueIssueTarget { name: "n1".to_string(), status: TargetStatus::DOWN },
            GetIssueIssueTarget { name: "n2".to_string(), status: TargetStatus::ONLINE },
        ],
    }
}

#[test]
fn issue_table_row() {
    let table = issue_table(&shown());
    assert_eq!(table.header, vec!["status", "target", "ctt status", "Enforce", "assignee", "title", "description"]);
    assert_eq!(table.max_row_height, None);
    assert_eq!(
        cells(&table, 0),
        vec![
            ("Closing".to_string(), Shade::Plain),
            ("blade7".to_string(), Shade::Green),
            ("Online".to_string(), Shade::Red),
            ("Blade".to_string(), Shade::Plain),
            ("NONE".to_string(), Shade::Plain),
            ("replace fan".to_string(), Shade::Plain),
            ("fan failure".to_string(), Shade::Plain),
        ]
    );
}

#[test]
fn comment_table_rows() {
    let issue = shown();
    let table = comment_table(&issue.comments, 0).unwrap();
    assert_eq!(table.header, vec!["author", "date", "comment"]);
    assert_eq!(
        cells(&table, 0),
        vec![
            ("bob".to_string(), Shade::Plain),
            ("2024-01-02 03:04:05".to_string(), Shade::Plain),
            ("seen".to_string(), Shade::Plain),
        ]
    );
    assert_eq!(cells(&table, 1)[1].0, "2024-01-02 02:04:05");
    assert!(comment_table(&issue.comments, -90000).is_none());
}

#[test]
fn local_time_range_edges() {
    assert!(local_time(stamp(LATEST_SECS, 0), 0).is_some());
    assert!(local_time(stamp(LATEST_SECS + 1, 0), 0).is_none());
    assert!(local_time(stamp(EARLIEST_SECS, 0), 0).is_some());
    assert!(local_time(stamp(EARLIEST_SECS - 1, 0), 0).is_none());
    assert!(local_time(stamp(T0, 999_999_999), 86399).is_some());
    assert!(local_time(stamp(T0, 0), -86399).is_some());
    assert!(local_time(stamp(T0, 0), -86400).is_none());
}

#[test]
fn local_time_leap_second() {
    // 1970-01-01 00:00:59 with a leap second
    assert_eq!(local_time(stamp(59, 1_500_000_000), 0), Some("1970-01-01 00:00:60".to_string()));
    assert!(local_time(stamp(58, 1_500_000_000), 0).is_none());
    assert!(local_time(stamp(59, 2_000_000_000), 0).is_none());
}
