//! What the append-only history log means: the number currently on display,
//! the tickets of the running session, the recent-history window, and the
//! per-desk statistics derived by pairing each event with its successor.

use vstd::prelude::*;

use crate::types::{is_close, is_reset, is_ticket, CloseStatus, HistoryItem, TicketStats};

verus! {

/// The ticket number the displays should show for this log: the number of
/// the most recent ticket call since the last reset marker, or 0 if none.
pub open spec fn current_number(log: Seq<HistoryItem>) -> int
    decreases log.len(),
{
    if log.len() == 0 {
        0
    } else if is_ticket(log.last()) {
        log.last().ticket_number as int
    } else if is_reset(log.last()) {
        0
    } else {
        current_number(log.drop_last())
    }
}

/// The ticket calls recorded since the last reset marker, oldest first.
pub open spec fn session_tickets(log: Seq<HistoryItem>) -> Seq<HistoryItem>
    decreases log.len(),
{
    if log.len() == 0 {
        Seq::empty()
    } else if is_reset(log.last()) {
        Seq::empty()
    } else if is_ticket(log.last()) {
        session_tickets(log.drop_last()).push(log.last())
    } else {
        session_tickets(log.drop_last())
    }
}

/// The recent-history window: the session's tickets newest first, without
/// the one still on display, at most `limit` of them.
pub open spec fn recent_history(log: Seq<HistoryItem>, limit: int) -> Seq<HistoryItem> {
    let asc = session_tickets(log);
    let n = asc.len() as int;
    let keep = if n - 1 < 0 {
        0
    } else if n - 1 > limit {
        limit
    } else {
        n - 1
    };
    Seq::new(keep as nat, |i: int| asc[n - 2 - i])
}

/// The timestamp of the most recent reset marker, or 0 if the log has
/// none. Statistics only look at events strictly after this time.
pub open spec fn latest_reset_time(log: Seq<HistoryItem>) -> int
    decreases log.len(),
{
    if log.len() == 0 {
        0
    } else if is_reset(log.last()) {
        log.last().created_at as int
    } else {
        latest_reset_time(log.drop_last())
    }
}

/// The events of `desk` after `start`, tickets and close markers alike,
/// oldest first. Close markers are kept here because they end the duration
/// of the ticket before them.
pub open spec fn desk_session_events(log: Seq<HistoryItem>, desk: Seq<char>, start: int) -> Seq<
    HistoryItem,
>
    decreases log.len(),
{
    if log.len() == 0 {
        Seq::empty()
    } else {
        let rest = desk_session_events(log.drop_last(), desk, start);
        if log.last().desk_name@ == desk && log.last().created_at > start && log.last().ticket_number
            >= -1 {
            rest.push(log.last())
        } else {
            rest
        }
    }
}

/// The statistics row for one event, ended by its successor if it has one.
/// A clock that went backwards between the two yields a duration of 0.
pub open spec fn stat_row(cur: HistoryItem, nxt: Option<HistoryItem>) -> TicketStats {
    match nxt {
        None => (TicketStats {
            ticket_number: cur.ticket_number,
            desk_name: cur.desk_name,
            start_time: cur.created_at,
            end_time: None,
            duration_seconds: None,
        }),
        Some(n) => (TicketStats {
            ticket_number: cur.ticket_number,
            desk_name: cur.desk_name,
            start_time: cur.created_at,
            end_time: Some(n.created_at),
            duration_seconds: Some(
                if n.created_at >= cur.created_at {
                    (n.created_at - cur.created_at) as u64
                } else {
                    0
                },
            ),
        }),
    }
}

/// Each desk event paired with its successor's timestamp, oldest first.
pub open spec fn paired_rows(raw: Seq<HistoryItem>) -> Seq<TicketStats> {
    Seq::new(
        raw.len(),
        |i: int|
            stat_row(
                raw[i],
                if i + 1 < raw.len() {
                    Some(raw[i + 1])
                } else {
                    None
                },
            ),
    )
}

/// The real tickets of `rows`, newest first: the close-marker rows are
/// dropped once they have ended the ticket before them.
pub open spec fn desc_ticket_rows(rows: Seq<TicketStats>) -> Seq<TicketStats>
    decreases rows.len(),
{
    if rows.len() == 0 {
        Seq::empty()
    } else {
        let rest = desc_ticket_rows(rows.drop_first());
        if rows.first().ticket_number >= 0 {
            rest.push(rows.first())
        } else {
            rest
        }
    }
}

/// The per-desk statistics: each of the desk's tickets in the current
/// session, its duration ended by the next event of that desk, newest first.
pub open spec fn desk_stats(log: Seq<HistoryItem>, desk: Seq<char>) -> Seq<TicketStats> {
    desc_ticket_rows(paired_rows(desk_session_events(log, desk, latest_reset_time(log))))
}

/// The most recent event of `desk`, whatever its kind.
pub open spec fn last_event_for(log: Seq<HistoryItem>, desk: Seq<char>) -> Option<HistoryItem>
    decreases log.len(),
{
    if log.len() == 0 {
        None
    } else if log.last().desk_name@ == desk {
        Some(log.last())
    } else {
        last_event_for(log.drop_last(), desk)
    }
}

/// What closing `desk` does to a log: closing is idempotent, so a desk
/// whose most recent event is already a close marker is left alone, and a
/// desk with no history at all gets no marker either.
pub open spec fn close_outcome(log: Seq<HistoryItem>, desk: Seq<char>) -> CloseStatus {
    match last_event_for(log, desk) {
        None => CloseStatus::NoHistory,
        Some(e) => if is_close(e) {
            CloseStatus::AlreadyClosed
        } else {
            CloseStatus::Success
        },
    }
}

/// The log's ids are the row positions counted from 1, as the store
/// assigns them.
pub open spec fn ids_are_positions(log: Seq<HistoryItem>) -> bool {
    forall|i: int| 0 <= i < log.len() ==> #[trigger] log[i].id == i + 1
}

/// A session holds no more tickets than the log holds rows.
pub proof fn lemma_session_tickets_len(log: Seq<HistoryItem>)
    ensures
        session_tickets(log).len() <= log.len(),
    decreases log.len(),
{
    if log.len() > 0 {
        lemma_session_tickets_len(log.drop_last());
    }
}

/// Appending a row only extends the log: the rows before it keep their
/// places, so a pushed log still numbers its rows from 1 when the new row
/// carries the next id.
pub proof fn lemma_ids_after_push(log: Seq<HistoryItem>, e: HistoryItem)
    requires
        ids_are_positions(log),
        e.id == log.len() + 1,
    ensures
        ids_are_positions(log.push(e)),
{
}

} // verus!
