//! The requests that the service takes, and the `br` arguments each one asks
//! for.

use vstd::prelude::*;

use crate::args::flag;
use crate::text::{decimal, opt_text};

verus! {

/// Asks for the issues that are ready.
#[derive(Debug)]
pub struct ReadyReq {
    /// Filter to a specific assignee. Omit for all.
    pub assignee: Option<String>,
    /// Only show unassigned issues.
    pub unassigned: bool,
    /// Max issues to return (0 = unlimited). Default br: 20.
    pub limit: Option<u32>,
}

/// Asks for one issue.
#[derive(Debug)]
pub struct ShowReq {
    /// Issue ID, e.g. `mu-onq8`.
    pub id: String,
}

/// Asks for the issues that pass some filters.
#[derive(Debug)]
pub struct ListReq {
    /// Filter by status (open, in_progress, closed, deferred, blocked).
    pub status: Option<String>,
    /// Filter by assignee.
    pub assignee: Option<String>,
    /// Minimum priority (0=critical .. 4=backlog).
    pub priority_min: Option<u8>,
    /// Maximum priority.
    pub priority_max: Option<u8>,
}

/// Asks for a new issue.
#[derive(Debug)]
pub struct CreateReq {
    /// Issue title.
    pub title: String,
    /// Issue type (task, bug, feature, ...).
    pub issue_type: Option<String>,
    /// Priority (0-4 or P0-P4).
    pub priority: Option<String>,
    /// Description / body.
    pub description: Option<String>,
    /// Actor name for the audit trail.
    pub actor: Option<String>,
}

/// Asks for a change of an issue.
#[derive(Debug)]
pub struct UpdateReq {
    /// Issue ID to update.
    pub id: String,
    /// New status (non-terminal only; use close for closing).
    pub status: Option<String>,
    /// New assignee (empty string clears).
    pub assignee: Option<String>,
    /// New priority (0-4 or P0-P4).
    pub priority: Option<String>,
    /// Actor name for the audit trail.
    pub actor: Option<String>,
}

/// Asks to claim an issue.
#[derive(Debug)]
pub struct ClaimReq {
    /// Issue ID to claim.
    pub id: String,
    /// Claiming actor: becomes assignee, status set to in_progress. Required.
    pub actor: String,
}

/// Asks to release an issue.
#[derive(Debug)]
pub struct UnclaimReq {
    /// Issue ID to release (assignee cleared, status set back to open).
    pub id: String,
    /// Actor name for the audit trail.
    pub actor: Option<String>,
}

/// Asks to close an issue.
#[derive(Debug)]
pub struct CloseReq {
    /// Issue ID to close.
    pub id: String,
    /// Close reason.
    pub reason: Option<String>,
    /// Actor name for the audit trail.
    pub actor: Option<String>,
}

/// Asks to run an arbitrary `br` command line.
#[derive(Debug)]
pub struct ExecReq {
    /// Raw br arguments, e.g. `["ready", "--json"]`. Any caller-supplied
    /// `--db`/`--no-db` is stripped; the central database is always forced.
    pub args: Vec<String>,
}

impl ReadyReq {
    /// `ready`, with at most one of the two assignee filters, and the limit.
    pub open spec fn br_args(self) -> Seq<Seq<char>> {
        seq!["ready"@] + (if self.unassigned {
            seq!["--unassigned"@]
        } else {
            flag("--assignee"@, opt_text(self.assignee))
        }) + flag("--limit"@, match self.limit {
            Some(n) => Some(decimal(n as nat)),
            None => None,
        })
    }
}

impl ShowReq {
    /// `show` and the issue.
    pub open spec fn br_args(self) -> Seq<Seq<char>> {
        seq!["show"@, self.id@]
    }
}

impl ListReq {
    /// `list` and the filters that are set.
    pub open spec fn br_args(self) -> Seq<Seq<char>> {
        seq!["list"@] + flag("--status"@, opt_text(self.status)) + flag(
            "--assignee"@,
            opt_text(self.assignee),
        ) + flag("--priority-min"@, match self.priority_min {
            Some(n) => Some(decimal(n as nat)),
            None => None,
        }) + flag("--priority-max"@, match self.priority_max {
            Some(n) => Some(decimal(n as nat)),
            None => None,
        })
    }
}

impl CreateReq {
    /// `create`, the title, and the fields that are set.
    pub open spec fn br_args(self) -> Seq<Seq<char>> {
        seq!["create"@, self.title@] + flag("--type"@, opt_text(self.issue_type)) + flag(
            "--priority"@,
            opt_text(self.priority),
        ) + flag("--description"@, opt_text(self.description)) + flag(
            "--actor"@,
            opt_text(self.actor),
        )
    }
}

impl UpdateReq {
    /// `update`, the issue, and the fields that change.
    pub open spec fn br_args(self) -> Seq<Seq<char>> {
        seq!["update"@, self.id@] + flag("--status"@, opt_text(self.status)) + flag(
            "--assignee"@,
            opt_text(self.assignee),
        ) + flag("--priority"@, opt_text(self.priority)) + flag("--actor"@, opt_text(self.actor))
    }
}

impl ClaimReq {
    /// `update`, the issue, and the claim in the actor's name.
    pub open spec fn br_args(self) -> Seq<Seq<char>> {
        seq!["update"@, self.id@, "--claim"@, "--actor"@, self.actor@]
    }
}

impl UnclaimReq {
    /// `update`, the issue, an empty assignee and status `open`.
    pub open spec fn br_args(self) -> Seq<Seq<char>> {
        seq!["update"@, self.id@, "--assignee"@, Seq::empty(), "--status"@, "open"@] + flag(
            "--actor"@,
            opt_text(self.actor),
        )
    }
}

impl CloseReq {
    /// `close`, the issue, and the fields that are set.
    pub open spec fn br_args(self) -> Seq<Seq<char>> {
        seq!["close"@, self.id@] + flag("--reason"@, opt_text(self.reason)) + flag(
            "--actor"@,
            opt_text(self.actor),
        )
    }
}

} // verus!
