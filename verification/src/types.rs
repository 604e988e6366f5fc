//! The data the engine works on: the displayed state, the log rows, the
//! registry and announcement records, and the outcome of closing a desk.

use vstd::prelude::*;

verus! {

/// What the displays show: the current ticket number and the desk that
/// called it.
#[derive(Debug, Clone, PartialEq)]
pub struct EtatFile {
    pub compteur: i32,
    pub guichet: String,
}

/// A registered device: a button or a screen, identified by its bearer token.
#[derive(Debug, Clone, PartialEq)]
pub struct Device {
    pub id: i32,
    pub name: String,
    pub token: String,
    pub status: Option<String>,
    pub ip_address: Option<String>,
}

/// An announcement shown on the displays; independent of ticketing.
#[derive(Debug, Clone, PartialEq)]
pub struct Annonce {
    pub id: i32,
    pub message: String,
    pub active: bool,
}

/// One row of the append-only history log.
///
/// `ticket_number` doubles as a discriminant: `>= 0` is a real ticket call
/// for `desk_name`, `-1` marks the desk closed, `-2` marks a global reset
/// that starts a new session.
#[derive(Debug, Clone, PartialEq)]
pub struct HistoryItem {
    pub id: i32,
    pub ticket_number: i32,
    pub desk_name: String,
    pub created_at: u64,
}

/// One ticket of a desk's statistics: when it was called, when the next
/// event ended it (if any), and how long it ran.
#[derive(Debug, Clone, PartialEq)]
pub struct TicketStats {
    pub ticket_number: i32,
    pub desk_name: String,
    pub start_time: u64,
    pub end_time: Option<u64>,
    pub duration_seconds: Option<u64>,
}

/// The tri-state outcome of closing a desk.
#[derive(Debug, Clone, Copy, PartialEq, Eq, Structural)]
pub enum CloseStatus {
    Success,
    AlreadyClosed,
    NoHistory,
}

impl CloseStatus {
    /// The wire code the administrative surface reports.
    pub fn code(&self) -> (r: &'static str)
        ensures
            *self is Success ==> r@ == "SUCCESS"@,
            *self is AlreadyClosed ==> r@ == "ALREADY_CLOSED"@,
            *self is NoHistory ==> r@ == "NO_HISTORY"@,
    {
        match self {
            CloseStatus::Success => "SUCCESS",
            CloseStatus::AlreadyClosed => "ALREADY_CLOSED",
            CloseStatus::NoHistory => "NO_HISTORY",
        }
    }
}

/// A real ticket call.
pub open spec fn is_ticket(e: HistoryItem) -> bool {
    e.ticket_number >= 0
}

/// A "desk closed" marker.
pub open spec fn is_close(e: HistoryItem) -> bool {
    e.ticket_number == -1
}

/// A global "reset" marker, segmenting the log into sessions.
pub open spec fn is_reset(e: HistoryItem) -> bool {
    e.ticket_number == -2
}

} // verus!
