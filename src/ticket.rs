//! The ticket record and the values it is made of.
use vstd::prelude::*;
use crate::status::Status;

verus! {

/// An instant, as milliseconds since the Unix epoch (UTC).
#[derive(Clone, Copy, Debug, PartialEq, Eq, Structural)]
pub struct Timestamp {
    pub millis: i64,
}

/// A timestamped remark appended to a ticket.
#[derive(Clone, Debug)]
pub struct Note {
    pub timestamp: Timestamp,
    pub content: String,
}

/// The unit of work.
#[derive(Clone, Debug)]
pub struct Ticket {
    pub id: String,
    pub title: String,
    pub status: Status,
    pub deps: Vec<String>,
    pub links: Vec<String>,
    pub created: Timestamp,
    pub issue_type: String,
    pub priority: i32,
    pub description: Option<String>,
    pub design: Option<String>,
    pub acceptance: Option<String>,
    pub assignee: Option<String>,
    pub external_ref: Option<String>,
    pub parent: Option<String>,
    pub project: Option<String>,
    pub category: Option<String>,
    pub notes: Vec<Note>,
}

/// The fields a caller supplies when creating a ticket.
#[derive(Clone, Debug)]
pub struct CreateOptions {
    pub issue_type: String,
    pub priority: i32,
    pub description: Option<String>,
    pub design: Option<String>,
    pub acceptance: Option<String>,
    pub assignee: Option<String>,
    pub external_ref: Option<String>,
    pub parent: Option<String>,
}

/// Why a store operation failed.
#[derive(Clone, Debug, PartialEq, Eq)]
pub enum TicketError {
    /// The identifier does not resolve to an existing ticket.
    NotFound(String),
    /// The document lacks its separators or its metadata cannot be read.
    FormatError(String),
    /// The requested status is not one of the seven.
    InvalidStatus(String),
    /// The filesystem refused an operation.
    IoError(String),
    /// The document is in no format the importer knows.
    MigrationUnsupported(String),
    /// The system clock could not be read.
    ClockError,
}

} // verus!
