//! What the client shows of issues: the cells of its tables, their text and
//! their colour.  Laying the cells out on the terminal is left to the caller.
use vstd::prelude::*;
use crate::clock::{local_time, local_time_text, writable, Stamp};
use crate::order::{is_listing_order, listing_order};
use crate::queries::get_issue::{GetIssueIssue, GetIssueIssueComments, GetIssueIssueTarget};
use crate::queries::list_issues::{ListIssuesIssues, ListIssuesIssuesTarget};
use crate::status::{TargetStatus, ToOffline};
use crate::text::{decimal_string, signed_decimal};

verus! {

/// The colour of a cell's text.
#[derive(Clone, Copy, Debug, PartialEq, Eq, Structural)]
pub enum Shade {
    Plain,
    Green,
    Yellow,
    Red,
}

/// One cell of a table.
pub struct Cell {
    pub text: String,
    pub shade: Shade,
}

/// A table to show: its header, its rows, and at most how many lines a row
/// may take.
pub struct TableSpec {
    pub header: Vec<String>,
    pub rows: Vec<Vec<Cell>>,
    pub max_row_height: Option<usize>,
}

pub open spec fn cell_view(c: Cell) -> (Seq<char>, Shade) {
    (c.text@, c.shade)
}

pub open spec fn row_view(r: Vec<Cell>) -> Seq<(Seq<char>, Shade)> {
    r@.map_values(|c: Cell| cell_view(c))
}

pub open spec fn header_view(h: Seq<String>) -> Seq<Seq<char>> {
    h.map_values(|s: String| s@)
}

/// How the state of a target is coloured: offline green, draining yellow,
/// still online red, down uncoloured.
pub open spec fn status_shade(st: TargetStatus) -> Shade {
    match st {
        TargetStatus::OFFLINE => Shade::Green,
        TargetStatus::DRAINING => Shade::Yellow,
        TargetStatus::ONLINE => Shade::Red,
        TargetStatus::DOWN => Shade::Plain,
    }
}

pub fn shade_of(st: TargetStatus) -> (shade: Shade)
    ensures
        shade == status_shade(st),
{
    match st {
        TargetStatus::OFFLINE => Shade::Green,
        TargetStatus::DRAINING => Shade::Yellow,
        TargetStatus::ONLINE => Shade::Red,
        TargetStatus::DOWN => Shade::Plain,
    }
}

/// The least advanced of a non-empty list of target states: the one of
/// lowest rank.
pub open spec fn least_advanced(s: Seq<TargetStatus>) -> TargetStatus
    decreases s.len(),
{
    if s.len() <= 1 {
        s[0]
    } else {
        let rest = least_advanced(s.drop_last());
        if s.last().rank_of() < rest.rank_of() {
            s.last()
        } else {
            rest
        }
    }
}

/// The least advanced state is one of the states, and no state is less
/// advanced.
pub proof fn lemma_least_advanced(s: Seq<TargetStatus>)
    requires
        s.len() > 0,
    ensures
        s.contains(least_advanced(s)),
        forall|i: int| 0 <= i < s.len() ==> least_advanced(s).rank_of() <= #[trigger] s[i].rank_of(),
    decreases s.len(),
{
    if s.len() > 1 {
        let init = s.drop_last();
        lemma_least_advanced(init);
        let w = choose|j: int| 0 <= j < init.len() && init[j] == least_advanced(init);
        if s.last().rank_of() < least_advanced(init).rank_of() {
            assert(s[s.len() - 1] == s.last());
        } else {
            assert(s[w] == init[w]);
        }
        assert forall|i: int| 0 <= i < s.len() implies least_advanced(s).rank_of() <= #[trigger] s[i].rank_of() by {
            if i < s.len() - 1 {
                assert(s[i] == init[i]);
            }
        }
    } else {
        assert(s[0] == least_advanced(s));
    }
}

/// The least advanced of a non-empty list of target states.
pub fn least_advanced_of(states: &Vec<TargetStatus>) -> (least: TargetStatus)
    requires
        states@.len() > 0,
    ensures
        least == least_advanced(states@),
{
    let mut least = states[0];
    let n = states.len();
    assert(states@.take(1).drop_last() =~= states@.take(0));
    for i in 1..n
        invariant
            n == states@.len(),
            least == least_advanced(states@.take(i as int)),
    {
        assert(states@.take(i + 1).drop_last() =~= states@.take(i as int));
        assert(states@.take(i + 1).last() == states@[i as int]);
        if states[i].rank() < least.rank() {
            least = states[i];
        }
    }
    assert(states@.take(n as int) =~= states@);
    least
}

/// The text of the enforcement cell: the scope, or `NONE` in red.
pub open spec fn enforce_cell(scope: Option<ToOffline>) -> (Seq<char>, Shade) {
    match scope {
        Some(g) => (g.display_text(), Shade::Plain),
        None => ("NONE"@, Shade::Red),
    }
}

/// The text of the assignee cell: the assignee, or `NONE`.
pub open spec fn assignee_text(who: Option<String>) -> Seq<char> {
    match who {
        Some(a) => a@,
        None => "NONE"@,
    }
}

fn plain(text: String) -> (c: Cell)
    ensures
        cell_view(c) == (text@, Shade::Plain),
{
    Cell { text, shade: Shade::Plain }
}

fn enforce_cell_of(scope: &Option<ToOffline>) -> (c: Cell)
    ensures
        cell_view(c) == enforce_cell(*scope),
{
    match scope {
        Some(g) => plain(String::from_str(g.display_name())),
        None => Cell { text: String::from_str("NONE"), shade: Shade::Red },
    }
}

fn assignee_cell_of(who: &Option<String>) -> (c: Cell)
    ensures
        cell_view(c) == (assignee_text(*who), Shade::Plain),
{
    match who {
        Some(a) => plain(a.clone()),
        None => plain(String::from_str("NONE")),
    }
}

fn status_cell_of(st: TargetStatus) -> (c: Cell)
    ensures
        cell_view(c) == (st.display_text(), status_shade(st)),
{
    Cell { text: String::from_str(st.display_name()), shade: shade_of(st) }
}

/// Header cells made of literals.
fn header_of(words: &Vec<&'static str>) -> (h: Vec<String>)
    ensures
        header_view(h@) == words@.map_values(|w: &'static str| w@),
{
    let mut h: Vec<String> = Vec::new();
    let n = words.len();
    for i in 0..n
        invariant
            n == words@.len(),
            h@.len() == i,
            forall|j: int| 0 <= j < i ==> #[trigger] h@[j]@ == words@[j]@,
    {
        h.push(String::from_str(words[i]));
    }
    assert(header_view(h@) =~= words@.map_values(|w: &'static str| w@));
    h
}

/// The text of an instant in local time, if chrono can write it.
pub open spec fn time_text(at: Stamp, offset: i32) -> Option<Seq<char>> {
    local_time_text(at.secs, at.nanos, offset)
}

/// chrono can write an instant in local time at this offset.
pub open spec fn time_writable(at: Stamp, offset: i32) -> bool {
    writable(at.secs, at.nanos, offset)
}

/// The header of the issue listing.
pub open spec fn list_header() -> Seq<Seq<char>> {
    seq!["id"@, "target"@, "ctt status"@, "Enforce"@, "assignee"@, "last updated"@, "title"@]
}

/// The states of the targets related to a listed issue.
pub open spec fn listed_states(issue: ListIssuesIssues) -> Seq<TargetStatus> {
    issue.related@.map_values(|t: ListIssuesIssuesTarget| t.status)
}

/// The update instants of listed issues.
pub open spec fn listing_keys(issues: Seq<ListIssuesIssues>) -> Seq<Stamp> {
    issues.map_values(|i: ListIssuesIssues| i.updated_at)
}

/// A listed issue can be shown: it names its target and has related targets.
pub open spec fn listable(issue: ListIssuesIssues) -> bool {
    issue.target is Some && issue.related@.len() > 0
}

/// The row of a listed issue, given the text of its update time: its id, its
/// target, the least advanced state of its related targets (coloured), what
/// it takes offline, its assignee, the time and its title.
pub open spec fn listed_row(issue: ListIssuesIssues, when: Seq<char>) -> Seq<(Seq<char>, Shade)> {
    let least = least_advanced(listed_states(issue));
    seq![
        (signed_decimal(issue.id as int), Shade::Plain),
        (issue.target->0.name@, Shade::Plain),
        (least.display_text(), status_shade(least)),
        enforce_cell(issue.to_offline),
        (assignee_text(issue.assigned_to), Shade::Plain),
        (when, Shade::Plain),
        (issue.title@, Shade::Plain),
    ]
}

fn listed_states_of(related: &Vec<ListIssuesIssuesTarget>) -> (states: Vec<TargetStatus>)
    ensures
        states@ == related@.map_values(|t: ListIssuesIssuesTarget| t.status),
{
    let mut states: Vec<TargetStatus> = Vec::new();
    let n = related.len();
    for i in 0..n
        invariant
            n == related@.len(),
            states@.len() == i,
            forall|j: int| 0 <= j < i ==> #[trigger] states@[j] == related@[j].status,
    {
        states.push(related[i].status);
    }
    assert(states@ =~= related@.map_values(|t: ListIssuesIssuesTarget| t.status));
    states
}

/// The row of one listed issue; `None` when chrono cannot write its time.
pub fn listed_row_of(issue: &ListIssuesIssues, offset: i32) -> (row: Option<Vec<Cell>>)
    requires
        listable(*issue),
    ensures
        row is None <==> !time_writable(issue.updated_at, offset),
        row is Some ==> time_text(issue.updated_at, offset) is Some,
        row matches Some(r) ==> row_view(r) == listed_row(*issue, time_text(issue.updated_at, offset)->0),
{
    let when = match local_time(issue.updated_at, offset) {
        Some(t) => t,
        None => return None,
    };
    let states = listed_states_of(&issue.related);
    let least = least_advanced_of(&states);
    let target = issue.target.as_ref().unwrap().name.clone();
    let mut row: Vec<Cell> = Vec::new();
    row.push(plain(decimal_string(issue.id as i64)));
    row.push(plain(target));
    row.push(status_cell_of(least));
    row.push(enforce_cell_of(&issue.to_offline));
    row.push(assignee_cell_of(&issue.assigned_to));
    row.push(plain(when));
    row.push(plain(issue.title.clone()));
    assert(row_view(row) =~= listed_row(*issue, time_text(issue.updated_at, offset)->0));
    Some(row)
}

/// The table of listed issues: by update time, earliest first, ties in the
/// order the server sent them; `None` when chrono cannot write one of the
/// update times.
pub fn issue_list_table(issues: &Vec<ListIssuesIssues>, offset: i32) -> (table: Option<TableSpec>)
    requires
        forall|i: int| 0 <= i < issues@.len() ==> listable(#[trigger] issues@[i]),
    ensures
        table is None <==> exists|i: int|
            0 <= i < issues@.len() && !time_writable(#[trigger] issues@[i].updated_at, offset),
        table matches Some(t) ==> {
            &&& header_view(t.header@) == list_header()
            &&& t.max_row_height == Some(3usize)
            &&& exists|order: Seq<usize>|
                {
                    &&& is_listing_order(listing_keys(issues@), order)
                    &&& t.rows@.len() == order.len()
                    &&& forall|k: int|
                        0 <= k < order.len() ==> row_view(#[trigger] t.rows@[k]) == listed_row(
                            issues@[order[k] as int],
                            time_text(issues@[order[k] as int].updated_at, offset)->0,
                        )
                }
        },
{
    let n = issues.len();
    let mut keys: Vec<Stamp> = Vec::new();
    for i in 0..n
        invariant
            n == issues@.len(),
            keys@.len() == i,
            forall|j: int| 0 <= j < i ==> #[trigger] keys@[j] == issues@[j].updated_at,
    {
        keys.push(issues[i].updated_at);
    }
    assert(keys@ =~= listing_keys(issues@));
    let order = listing_order(&keys);
    let mut rows: Vec<Vec<Cell>> = Vec::new();
    for k in 0..n
        invariant
            n == issues@.len(),
            is_listing_order(listing_keys(issues@), order@),
            forall|i: int| 0 <= i < issues@.len() ==> listable(#[trigger] issues@[i]),
            rows@.len() == k,
            forall|j: int| 0 <= j < k ==> time_text(issues@[#[trigger] order@[j] as int].updated_at, offset) is Some,
            forall|j: int| 0 <= j < k ==> time_writable(issues@[#[trigger] order@[j] as int].updated_at, offset),
            forall|j: int|
                0 <= j < k ==> row_view(#[trigger] rows@[j]) == listed_row(
                    issues@[order@[j] as int],
                    time_text(issues@[order@[j] as int].updated_at, offset)->0,
                ),
    {
        let idx = order[k];
        assert(order@[k as int] < n);
        match listed_row_of(&issues[idx], offset) {
            Some(r) => rows.push(r),
            None => {
                assert(!time_writable(issues@[idx as int].updated_at, offset));
                return None;
            },
        }
    }
    proof {
        assert forall|i: int| 0 <= i < issues@.len() implies time_writable(#[trigger] issues@[i].updated_at, offset) by {
            assert(order@.contains(i as usize));
            let k = choose|k: int| 0 <= k < order@.len() && order@[k] == i as usize;
            assert(time_writable(issues@[order@[k] as int].updated_at, offset));
        }
    }
    let header = header_of(&vec!["id", "target", "ctt status", "Enforce", "assignee", "last updated", "title"]);
    let table = TableSpec { header, rows, max_row_height: Some(3) };
    assert(header_view(table.header@) =~= list_header());
    Some(table)
}

/// The header of the table that shows one issue.
pub open spec fn issue_header() -> Seq<Seq<char>> {
    seq!["status"@, "target"@, "ctt status"@, "Enforce"@, "assignee"@, "title"@, "description"@]
}

/// The header of the table of comments.
pub open spec fn comment_header() -> Seq<Seq<char>> {
    seq!["author"@, "date"@, "comment"@]
}

/// The states of the targets related to an issue.
pub open spec fn related_states(issue: GetIssueIssue) -> Seq<TargetStatus> {
    issue.related@.map_values(|t: GetIssueIssueTarget| t.status)
}

/// An issue can be shown: it names its target and has related targets.
pub open spec fn showable(issue: GetIssueIssue) -> bool {
    issue.target is Some && issue.related@.len() > 0
}

/// The row that shows an issue: its status, its target (coloured by the
/// target's state), the least advanced state of its related targets
/// (coloured), what it takes offline, its assignee, its title and its
/// description.
pub open spec fn issue_row(issue: GetIssueIssue) -> Seq<(Seq<char>, Shade)> {
    let least = least_advanced(related_states(issue));
    let target = issue.target->0;
    seq![
        (issue.issue_status.display_text(), Shade::Plain),
        (target.name@, status_shade(target.status)),
        (least.display_text(), status_shade(least)),
        enforce_cell(issue.to_offline),
        (assignee_text(issue.assigned_to), Shade::Plain),
        (issue.title@, Shade::Plain),
        (issue.description@, Shade::Plain),
    ]
}

/// The row of a comment, given the text of its time: author, time, text.
pub open spec fn comment_row(c: GetIssueIssueComments, when: Seq<char>) -> Seq<(Seq<char>, Shade)> {
    seq![(c.created_by@, Shade::Plain), (when, Shade::Plain), (c.comment@, Shade::Plain)]
}

fn related_states_of(related: &Vec<GetIssueIssueTarget>) -> (states: Vec<TargetStatus>)
    ensures
        states@ == related@.map_values(|t: GetIssueIssueTarget| t.status),
{
    let mut states: Vec<TargetStatus> = Vec::new();
    let n = related.len();
    for i in 0..n
        invariant
            n == related@.len(),
            states@.len() == i,
            forall|j: int| 0 <= j < i ==> #[trigger] states@[j] == related@[j].status,
    {
        states.push(related[i].status);
    }
    assert(states@ =~= related@.map_values(|t: GetIssueIssueTarget| t.status));
    states
}

/// The table that shows one issue.
pub fn issue_table(issue: &GetIssueIssue) -> (table: TableSpec)
    requires
        showable(*issue),
    ensures
        header_view(table.header@) == issue_header(),
        table.rows@.len() == 1,
        row_view(table.rows@[0]) == issue_row(*issue),
        table.max_row_height is None,
{
    let states = related_states_of(&issue.related);
    let least = least_advanced_of(&states);
    let t = issue.target.as_ref().unwrap();
    let target = Cell { text: t.name.clone(), shade: shade_of(t.status) };
    let mut row: Vec<Cell> = Vec::new();
    row.push(plain(String::from_str(issue.issue_status.display_name())));
    row.push(target);
    row.push(status_cell_of(least));
    row.push(enforce_cell_of(&issue.to_offline));
    row.push(assignee_cell_of(&issue.assigned_to));
    row.push(plain(issue.title.clone()));
    row.push(plain(issue.description.clone()));
    assert(row_view(row) =~= issue_row(*issue));
    let header = header_of(&vec!["status", "target", "ctt status", "Enforce", "assignee", "title", "description"]);
    let mut rows: Vec<Vec<Cell>> = Vec::new();
    rows.push(row);
    let table = TableSpec { header, rows, max_row_height: None };
    assert(header_view(table.header@) =~= issue_header());
    table
}

/// The table of an issue's comments, in the order the server sent them;
/// `None` when chrono cannot write the time of one of them.
pub fn comment_table(comments: &Vec<GetIssueIssueComments>, offset: i32) -> (table: Option<TableSpec>)
    ensures
        table is None <==> exists|i: int|
            0 <= i < comments@.len() && !time_writable(#[trigger] comments@[i].created_at, offset),
        table matches Some(t) ==> {
            &&& header_view(t.header@) == comment_header()
            &&& t.max_row_height is None
            &&& t.rows@.len() == comments@.len()
            &&& forall|k: int|
                0 <= k < comments@.len() ==> row_view(#[trigger] t.rows@[k]) == comment_row(
                    comments@[k],
                    time_text(comments@[k].created_at, offset)->0,
                )
        },
{
    let n = comments.len();
    let mut rows: Vec<Vec<Cell>> = Vec::new();
    for k in 0..n
        invariant
            n == comments@.len(),
            rows@.len() == k,
            forall|j: int| 0 <= j < k ==> (#[trigger] time_text(comments@[j].created_at, offset)) is Some,
            forall|j: int| 0 <= j < k ==> time_writable(#[trigger] comments@[j].created_at, offset),
            forall|j: int|
                0 <= j < k ==> row_view(#[trigger] rows@[j]) == comment_row(
                    comments@[j],
                    time_text(comments@[j].created_at, offset)->0,
                ),
    {
        let c = &comments[k];
        let when = match local_time(c.created_at, offset) {
            Some(t) => t,
            None => return None,
        };
        let mut row: Vec<Cell> = Vec::new();
        row.push(plain(c.created_by.clone()));
        row.push(plain(when));
        row.push(plain(c.comment.clone()));
        assert(row_view(row) =~= comment_row(comments@[k as int], time_text(comments@[k as int].created_at, offset)->0));
        rows.push(row);
    }
    let header = header_of(&vec!["author", "date", "comment"]);
    let table = TableSpec { header, rows, max_row_height: None };
    assert(header_view(table.header@) =~= comment_header());
    Some(table)
}

/// The colour a target state is shown in, written out.
proof fn lemma_shade_cases(st: TargetStatus)
    ensures
        status_shade(st) == match st {
            TargetStatus::OFFLINE => Shade::Green,
            TargetStatus::DRAINING => Shade::Yellow,
            TargetStatus::ONLINE => Shade::Red,
            TargetStatus::DOWN => Shade::Plain,
        },
{
}

/// The status cell of a listed issue shows the least advanced state among
/// its related targets: the state of the related target `k`, such that no related
/// target ranks lower, in that state's colour (offline green, draining
/// yellow, online red, down uncoloured).
pub proof fn lemma_listed_status_cell(issue: ListIssuesIssues, when: Seq<char>) -> (k: int)
    requires
        issue.related@.len() > 0,
    ensures
        0 <= k < issue.related@.len(),
        listed_row(issue, when)[2] == (issue.related@[k].status.display_text(), match issue.related@[k].status {
            TargetStatus::OFFLINE => Shade::Green,
            TargetStatus::DRAINING => Shade::Yellow,
            TargetStatus::ONLINE => Shade::Red,
            TargetStatus::DOWN => Shade::Plain,
        }),
        forall|j: int| 0 <= j < issue.related@.len() ==> issue.related@[k].status.rank_of() <= (#[trigger] issue.related@[j]).status.rank_of(),
        forall|j: int| 0 <= j < issue.related@.len() ==> {
            let other = (#[trigger] issue.related@[j]).status;
            &&& other == TargetStatus::ONLINE ==> issue.related@[k].status == TargetStatus::ONLINE
            &&& other == TargetStatus::DRAINING ==> (issue.related@[k].status == TargetStatus::ONLINE || issue.related@[k].status == TargetStatus::DRAINING)
            &&& other == TargetStatus::OFFLINE ==> issue.related@[k].status != TargetStatus::DOWN
        },
{
    let states = listed_states(issue);
    lemma_least_advanced(states);
    let least = least_advanced(states);
    let k = choose|k: int| 0 <= k < states.len() && states[k] == least;
    assert(issue.related@[k].status == least);
    let row = listed_row(issue, when);
    assert(row[2] == (least.display_text(), status_shade(least)));
    lemma_shade_cases(least);
    assert forall|j: int| 0 <= j < issue.related@.len() implies least.rank_of() <= (#[trigger] issue.related@[j]).status.rank_of() by {
        assert(states[j] == issue.related@[j].status);
    }
    assert forall|j: int| 0 <= j < issue.related@.len() implies {
        let other = (#[trigger] issue.related@[j]).status;
        &&& other == TargetStatus::ONLINE ==> least == TargetStatus::ONLINE
        &&& other == TargetStatus::DRAINING ==> (least == TargetStatus::ONLINE || least == TargetStatus::DRAINING)
        &&& other == TargetStatus::OFFLINE ==> least != TargetStatus::DOWN
    } by {
        assert(least.rank_of() <= issue.related@[j].status.rank_of());
    }
    k
}

/// The status cell of a shown issue shows the least advanced state among
/// its related targets: the state of the related target `k`, such that no related
/// target ranks lower, in that state's colour (offline green, draining
/// yellow, online red, down uncoloured).
pub proof fn lemma_issue_status_cell(issue: GetIssueIssue) -> (k: int)
    requires
        issue.related@.len() > 0,
    ensures
        0 <= k < issue.related@.len(),
        issue_row(issue)[2] == (issue.related@[k].status.display_text(), match issue.related@[k].status {
            TargetStatus::OFFLINE => Shade::Green,
            TargetStatus::DRAINING => Shade::Yellow,
            TargetStatus::ONLINE => Shade::Red,
            TargetStatus::DOWN => Shade::Plain,
        }),
        forall|j: int| 0 <= j < issue.related@.len() ==> issue.related@[k].status.rank_of() <= (#[trigger] issue.related@[j]).status.rank_of(),
        forall|j: int| 0 <= j < issue.related@.len() ==> {
            let other = (#[trigger] issue.related@[j]).status;
            &&& other == TargetStatus::ONLINE ==> issue.related@[k].status == TargetStatus::ONLINE
            &&& other == TargetStatus::DRAINING ==> (issue.related@[k].status == TargetStatus::ONLINE || issue.related@[k].status == TargetStatus::DRAINING)
            &&& other == TargetStatus::OFFLINE ==> issue.related@[k].status != TargetStatus::DOWN
        },
{
    let states = related_states(issue);
    lemma_least_advanced(states);
    let least = least_advanced(states);
    let k = choose|k: int| 0 <= k < states.len() && states[k] == least;
    assert(issue.related@[k].status == least);
    let row = issue_row(issue);
    assert(row[2] == (least.display_text(), status_shade(least)));
    lemma_shade_cases(least);
    assert forall|j: int| 0 <= j < issue.related@.len() implies least.rank_of() <= (#[trigger] issue.related@[j]).status.rank_of() by {
        assert(states[j] == issue.related@[j].status);
    }
    assert forall|j: int| 0 <= j < issue.related@.len() implies {
        let other = (#[trigger] issue.related@[j]).status;
        &&& other == TargetStatus::ONLINE ==> least == TargetStatus::ONLINE
        &&& other == TargetStatus::DRAINING ==> (least == TargetStatus::ONLINE || least == TargetStatus::DRAINING)
        &&& other == TargetStatus::OFFLINE ==> least != TargetStatus::DOWN
    } by {
        assert(least.rank_of() <= issue.related@[j].status.rank_of());
    }
    k
}

} // verus!
