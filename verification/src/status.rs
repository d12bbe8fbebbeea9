//! The enumerations that travel between the client and the ticket server:
//! the lifecycle of an issue, what an issue takes offline, the state of a
//! target, and how the client shows its results.  Each has a wire name (the
//! text the server speaks) and a display name (the text a person reads).
use vstd::prelude::*;
use crate::text::{chars_of, spells};

verus! {

/// Where an issue stands in its lifecycle.
#[derive(Clone, Copy, Debug, PartialEq, Eq, Structural)]
pub enum IssueStatus {
    OPEN,
    CLOSED,
    OPENING,
    CLOSING,
}

impl IssueStatus {
    /// The name the server uses for this status.
    pub open spec fn wire_text(self) -> Seq<char> {
        match self {
            IssueStatus::OPEN => "OPEN"@,
            IssueStatus::OPENING => "OPENING"@,
            IssueStatus::CLOSED => "CLOSED"@,
            IssueStatus::CLOSING => "CLOSING"@,
        }
    }

    /// The name shown to a person for this status.
    pub open spec fn display_text(self) -> Seq<char> {
        match self {
            IssueStatus::OPEN => "Open"@,
            IssueStatus::OPENING => "Opening"@,
            IssueStatus::CLOSED => "Closed"@,
            IssueStatus::CLOSING => "Closing"@,
        }
    }

    /// The status whose wire name is `s`, if there is one.
    pub open spec fn from_wire_text(s: Seq<char>) -> Option<IssueStatus> {
        if s == "OPEN"@ {
            Some(IssueStatus::OPEN)
        } else if s == "OPENING"@ {
            Some(IssueStatus::OPENING)
        } else if s == "CLOSED"@ {
            Some(IssueStatus::CLOSED)
        } else if s == "CLOSING"@ {
            Some(IssueStatus::CLOSING)
        } else {
            None
        }
    }

    pub fn wire_name(&self) -> (name: &'static str)
        ensures
            name@ == self.wire_text(),
    {
        match self {
            IssueStatus::OPEN => "OPEN",
            IssueStatus::OPENING => "OPENING",
            IssueStatus::CLOSED => "CLOSED",
            IssueStatus::CLOSING => "CLOSING",
        }
    }

    pub fn display_name(&self) -> (name: &'static str)
        ensures
            name@ == self.display_text(),
    {
        match self {
            IssueStatus::OPEN => "Open",
            IssueStatus::OPENING => "Opening",
            IssueStatus::CLOSED => "Closed",
            IssueStatus::CLOSING => "Closing",
        }
    }

    /// Reads a status from its wire name; `None` for any other text.
    pub fn parse_wire(s: &str) -> (parsed: Option<IssueStatus>)
        ensures
            parsed == IssueStatus::from_wire_text(s@),
    {
        let cs = chars_of(s);
        if spells(&cs, "OPEN") {
            Some(IssueStatus::OPEN)
        } else if spells(&cs, "OPENING") {
            Some(IssueStatus::OPENING)
        } else if spells(&cs, "CLOSED") {
            Some(IssueStatus::CLOSED)
        } else if spells(&cs, "CLOSING") {
            Some(IssueStatus::CLOSING)
        } else {
            None
        }
    }
}

/// Reading back the wire name of a status gives that status.
pub proof fn lemma_issue_status_wire_round_trip(st: IssueStatus)
    ensures
        IssueStatus::from_wire_text(st.wire_text()) == Some(st),
{
    reveal_strlit("OPEN");
    reveal_strlit("OPENING");
    reveal_strlit("CLOSED");
    reveal_strlit("CLOSING");
    assert("OPEN"@.len() == 4);
    assert("OPENING"@.len() == 7);
    assert("CLOSED"@.len() == 6);
    assert("CLOSED"@[0] != "OPEN"@[0]);
    assert("CLOSING"@[0] != "OPEN"@[0]);
    assert("CLOSING"@[0] != "OPENING"@[0]);
    assert("CLOSING"@.len() != "CLOSED"@.len());
}

/// Only a wire name is read as a status, and it is read as the status it names.
pub proof fn lemma_issue_status_wire_canonical(s: Seq<char>, st: IssueStatus)
    requires
        IssueStatus::from_wire_text(s) == Some(st),
    ensures
        s == st.wire_text(),
{
}

/// Different statuses are shown under different names.
pub proof fn lemma_issue_status_display_distinct(a: IssueStatus, b: IssueStatus)
    requires
        a != b,
    ensures
        a.display_text() != b.display_text(),
{
    reveal_strlit("Open");
    reveal_strlit("Opening");
    reveal_strlit("Closed");
    reveal_strlit("Closing");
    assert(a.display_text().len() != b.display_text().len()
        || a.display_text()[0] != b.display_text()[0]);
}

/// What an issue asks to take offline when it is enforced.
#[derive(Clone, Copy, Debug, PartialEq, Eq, Structural)]
pub enum ToOffline {
    Node,
    Card,
    Blade,
    /// Take nothing offline (the wire name is `NONE`, the display name `None`).
    Nothing,
}

impl ToOffline {
    /// The name the server uses for this scope.
    pub open spec fn wire_text(self) -> Seq<char> {
        match self {
            ToOffline::Node => "NODE"@,
            ToOffline::Card => "CARD"@,
            ToOffline::Blade => "BLADE"@,
            ToOffline::Nothing => "NONE"@,
        }
    }

    /// The name shown to a person for this scope.
    pub open spec fn display_text(self) -> Seq<char> {
        match self {
            ToOffline::Node => "Node"@,
            ToOffline::Card => "Card"@,
            ToOffline::Blade => "Blade"@,
            ToOffline::Nothing => "None"@,
        }
    }

    /// The scope whose wire name is `s`, if there is one.
    pub open spec fn from_wire_text(s: Seq<char>) -> Option<ToOffline> {
        if s == "NODE"@ {
            Some(ToOffline::Node)
        } else if s == "CARD"@ {
            Some(ToOffline::Card)
        } else if s == "BLADE"@ {
            Some(ToOffline::Blade)
        } else if s == "NONE"@ {
            Some(ToOffline::Nothing)
        } else {
            Option::None
        }
    }

    pub fn wire_name(&self) -> (name: &'static str)
        ensures
            name@ == self.wire_text(),
    {
        match self {
            ToOffline::Node => "NODE",
            ToOffline::Card => "CARD",
            ToOffline::Blade => "BLADE",
            ToOffline::Nothing => "NONE",
        }
    }

    pub fn display_name(&self) -> (name: &'static str)
        ensures
            name@ == self.display_text(),
    {
        match self {
            ToOffline::Node => "Node",
            ToOffline::Card => "Card",
            ToOffline::Blade => "Blade",
            ToOffline::Nothing => "None",
        }
    }

    /// Reads a scope from its wire name; `None` for any other text.
    pub fn parse_wire(s: &str) -> (parsed: Option<ToOffline>)
        ensures
            parsed == ToOffline::from_wire_text(s@),
    {
        let cs = chars_of(s);
        if spells(&cs, "NODE") {
            Some(ToOffline::Node)
        } else if spells(&cs, "CARD") {
            Some(ToOffline::Card)
        } else if spells(&cs, "BLADE") {
            Some(ToOffline::Blade)
        } else if spells(&cs, "NONE") {
            Some(ToOffline::Nothing)
        } else {
            Option::None
        }
    }
}

/// Reading back the wire name of a scope gives that scope.
pub proof fn lemma_to_offline_wire_round_trip(t: ToOffline)
    ensures
        ToOffline::from_wire_text(t.wire_text()) == Some(t),
{
    reveal_strlit("NODE");
    reveal_strlit("CARD");
    reveal_strlit("BLADE");
    reveal_strlit("NONE");
    assert("NODE"@[2] != "NONE"@[2]);
    assert("CARD"@[0] != "NODE"@[0]);
    assert("BLADE"@.len() != "NODE"@.len());
    assert("BLADE"@.len() != "CARD"@.len());
    assert("NONE"@[0] != "CARD"@[0]);
}

/// Only a wire name is read as a scope, and it is read as the scope it names.
pub proof fn lemma_to_offline_wire_canonical(s: Seq<char>, t: ToOffline)
    requires
        ToOffline::from_wire_text(s) == Some(t),
    ensures
        s == t.wire_text(),
{
}

/// Different scopes are shown under different names.
pub proof fn lemma_to_offline_display_distinct(a: ToOffline, b: ToOffline)
    requires
        a != b,
    ensures
        a.display_text() != b.display_text(),
{
    reveal_strlit("Node");
    reveal_strlit("Card");
    reveal_strlit("Blade");
    reveal_strlit("None");
    assert(a.display_text().len() != b.display_text().len()
        || a.display_text()[0] != b.display_text()[0]
        || a.display_text()[2] != b.display_text()[2]);
}

/// The state the server reports for a target (a node, a card, a blade).
/// The declaration order is the order of progress towards being offline:
/// a target still online comes first, a target that is down comes last.
#[derive(Clone, Copy, Debug, PartialEq, Eq, Structural)]
pub enum TargetStatus {
    ONLINE,
    DRAINING,
    OFFLINE,
    DOWN,
}

impl TargetStatus {
    /// Position of the status in the order of progress.
    pub open spec fn rank_of(self) -> nat {
        match self {
            TargetStatus::ONLINE => 0,
            TargetStatus::DRAINING => 1,
            TargetStatus::OFFLINE => 2,
            TargetStatus::DOWN => 3,
        }
    }

    pub fn rank(&self) -> (r: u8)
        ensures
            r == self.rank_of(),
    {
        match self {
            TargetStatus::ONLINE => 0,
            TargetStatus::DRAINING => 1,
            TargetStatus::OFFLINE => 2,
            TargetStatus::DOWN => 3,
        }
    }

    /// The name the server uses for this state.
    pub open spec fn wire_text(self) -> Seq<char> {
        match self {
            TargetStatus::ONLINE => "ONLINE"@,
            TargetStatus::DRAINING => "DRAINING"@,
            TargetStatus::OFFLINE => "OFFLINE"@,
            TargetStatus::DOWN => "DOWN"@,
        }
    }

    /// The name shown to a person for this state.
    pub open spec fn display_text(self) -> Seq<char> {
        match self {
            TargetStatus::ONLINE => "Online"@,
            TargetStatus::DRAINING => "Draining"@,
            TargetStatus::OFFLINE => "Offline"@,
            TargetStatus::DOWN => "Down"@,
        }
    }

    /// The state whose wire name is `s`, if there is one.
    pub open spec fn from_wire_text(s: Seq<char>) -> Option<TargetStatus> {
        if s == "ONLINE"@ {
            Some(TargetStatus::ONLINE)
        } else if s == "DRAINING"@ {
            Some(TargetStatus::DRAINING)
        } else if s == "OFFLINE"@ {
            Some(TargetStatus::OFFLINE)
        } else if s == "DOWN"@ {
            Some(TargetStatus::DOWN)
        } else {
            None
        }
    }

    pub fn wire_name(&self) -> (name: &'static str)
        ensures
            name@ == self.wire_text(),
    {
        match self {
            TargetStatus::ONLINE => "ONLINE",
            TargetStatus::DRAINING => "DRAINING",
            TargetStatus::OFFLINE => "OFFLINE",
            TargetStatus::DOWN => "DOWN",
        }
    }

    pub fn display_name(&self) -> (name: &'static str)
        ensures
            name@ == self.display_text(),
    {
        match self {
            TargetStatus::ONLINE => "Online",
            TargetStatus::DRAINING => "Draining",
            TargetStatus::OFFLINE => "Offline",
            TargetStatus::DOWN => "Down",
        }
    }

    /// Reads a state from its wire name; `None` for any other text.
    pub fn parse_wire(s: &str) -> (parsed: Option<TargetStatus>)
        ensures
            parsed == TargetStatus::from_wire_text(s@),
    {
        let cs = chars_of(s);
        if spells(&cs, "ONLINE") {
            Some(TargetStatus::ONLINE)
        } else if spells(&cs, "DRAINING") {
            Some(TargetStatus::DRAINING)
        } else if spells(&cs, "OFFLINE") {
            Some(TargetStatus::OFFLINE)
        } else if spells(&cs, "DOWN") {
            Some(TargetStatus::DOWN)
        } else {
            None
        }
    }
}

/// Reading back the wire name of a target state gives that state.
pub proof fn lemma_target_status_wire_round_trip(t: TargetStatus)
    ensures
        TargetStatus::from_wire_text(t.wire_text()) == Some(t),
{
    reveal_strlit("ONLINE");
    reveal_strlit("DRAINING");
    reveal_strlit("OFFLINE");
    reveal_strlit("DOWN");
    assert("DRAINING"@[0] != "ONLINE"@[0]);
    assert("OFFLINE"@.len() != "ONLINE"@.len());
    assert("OFFLINE"@[0] != "DRAINING"@[0]);
    assert("DOWN"@[0] != "ONLINE"@[0]);
    assert("DOWN"@.len() != "DRAINING"@.len());
    assert("DOWN"@[0] != "OFFLINE"@[0]);
}

/// Only a wire name is read as a target state, and it is read as the state it names.
pub proof fn lemma_target_status_wire_canonical(s: Seq<char>, t: TargetStatus)
    requires
        TargetStatus::from_wire_text(s) == Some(t),
    ensures
        s == t.wire_text(),
{
}

/// Different target states are shown under different names.
pub proof fn lemma_target_status_display_distinct(a: TargetStatus, b: TargetStatus)
    requires
        a != b,
    ensures
        a.display_text() != b.display_text(),
{
    reveal_strlit("Online");
    reveal_strlit("Draining");
    reveal_strlit("Offline");
    reveal_strlit("Down");
    assert(a.display_text().len() != b.display_text().len()
        || a.display_text()[0] != b.display_text()[0]);
}

/// The order of progress is a strict total order: two states of the same
/// rank are the same state.
pub proof fn lemma_target_status_rank_injective(a: TargetStatus, b: TargetStatus)
    requires
        a.rank_of() == b.rank_of(),
    ensures
        a == b,
{
}

/// How the client shows what it receives.
#[derive(Clone, Copy, Debug, PartialEq, Eq, Structural)]
pub enum DisplayFormat {
    Human,
    JSON,
}

impl Default for DisplayFormat {
    fn default() -> (format: DisplayFormat)
        ensures
            format == DisplayFormat::Human,
    {
        DisplayFormat::Human
    }
}

} // verus!
