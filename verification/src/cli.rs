//! What the user asks of the client: the command line, and the values that
//! go with each request to the server.
use vstd::prelude::*;
use crate::status::{DisplayFormat, IssueStatus, ToOffline};

verus! {

/// The command line of the client.
pub struct Cli {
    pub cmd: Command,
    /// The server to talk to; when absent it is looked up in the batch
    /// system's configuration.
    pub server: Option<String>,
    /// How many times to try authenticating and logging in.
    pub retries: Option<i32>,
    pub format: Option<DisplayFormat>,
}

/// What the user asks for.
pub enum Command {
    List(ListVariables),
    Show(GetVariables),
    Open(OpenNewIssue),
    Close(CloseVariables),
    Update(ModifyUpdateIssue),
    Version,
}

/// The user on whose behalf the client speaks.
pub struct Credentials {
    pub user: String,
}

/// How the client proves who it is when it logs in.
pub enum AuthRequest {
    /// A credential signed by the MUNGE service.
    Munge(String),
}

/// The token that the server grants at login.
pub struct Token {
    pub token: String,
}

/// Which issues to list.
pub struct ListVariables {
    pub status: Option<IssueStatus>,
    pub target: Option<String>,
}

/// Which issue to show.
pub struct GetVariables {
    pub id: i32,
}

/// Which issue to close, and why.
pub struct CloseVariables {
    pub id: i32,
    pub comment: String,
}

/// A new issue.
pub struct OpenNewIssue {
    pub target: String,
    pub title: String,
    pub description: String,
    pub to_offline: ToOffline,
    pub assigned_to: Option<String>,
}

/// Changes to an issue; an absent field stays as it is.
pub struct ModifyUpdateIssue {
    pub id: i32,
    pub assigned_to: Option<String>,
    pub description: Option<String>,
    pub to_offline: Option<ToOffline>,
    pub title: Option<String>,
}

/// The number of tries when the command line names none.
pub const DEFAULT_RETRIES: i32 = 3;

/// The scope of a new issue when the command line names none.
pub fn default_to_offline() -> (scope: ToOffline)
    ensures
        scope == ToOffline::Node,
{
    ToOffline::Node
}

impl Cli {
    /// How many times to try: as given, or three.
    pub fn retry_limit(&self) -> (limit: i32)
        ensures
            limit == match self.retries {
                Some(r) => r,
                None => DEFAULT_RETRIES,
            },
    {
        match self.retries {
            Some(r) => r,
            None => DEFAULT_RETRIES,
        }
    }
}

impl Token {
    /// The value of the `Authorization` header that carries this token.
    pub fn bearer(&self) -> (value: String)
        ensures
            value@ == "Bearer "@ + self.token@,
    {
        let mut value = String::from_str("Bearer ");
        value.append(self.token.as_str());
        value
    }
}

} // verus!
