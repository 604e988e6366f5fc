//! The engine's laws, proved over the same spec functions the operations'
//! contracts use.

use vstd::prelude::*;

use crate::database::Database;
use crate::hub::{deliver, msg_count, Msg};
use crate::log::{
    close_outcome, current_number, desc_ticket_rows, last_event_for, recent_history,
    session_tickets,
};
use crate::types::{is_close, is_reset, is_ticket, CloseStatus, HistoryItem, TicketStats};

verus! {

/// In every reachable state the displayed counter equals both the number
/// of the most recent ticket call since the last reset and the count of
/// ticket rows appended since that reset. Together with `call_next`'s
/// contract — each call returns the old counter plus one — successive
/// calls without an interleaved reset return a strictly increasing
/// sequence with no gaps.
pub proof fn lemma_counter_counts_session(db: Database)
    requires
        db.wf(),
    ensures
        db.counter == current_number(db.history@),
        db.counter == session_tickets(db.history@).len(),
{
}

/// Appending one ticket row extends the session's tickets by exactly that
/// row; markers never sneak in.
pub proof fn lemma_ticket_extends_session(log: Seq<HistoryItem>, e: HistoryItem)
    requires
        is_ticket(e),
    ensures
        session_tickets(log.push(e)) == session_tickets(log).push(e),
{
    assert(log.push(e).drop_last() =~= log);
}

/// Closing is idempotent: right after a close marker went in for a desk,
/// closing that desk again reports it already closed — and `close_desk`'s
/// contract then appends no second marker.
pub proof fn lemma_close_idempotent(log: Seq<HistoryItem>, e: HistoryItem)
    requires
        is_close(e),
    ensures
        close_outcome(log.push(e), e.desk_name@) == CloseStatus::AlreadyClosed,
{
    assert(last_event_for(log.push(e), e.desk_name@) == Some(e));
}

/// A reset starts an empty session: once the reset marker is the last row,
/// the session holds no tickets and the recent-history window shows no
/// event from before the marker — it shows nothing at all.
pub proof fn lemma_reset_empties_history(log: Seq<HistoryItem>, e: HistoryItem, limit: int)
    requires
        is_reset(e),
    ensures
        session_tickets(log.push(e)) == Seq::<HistoryItem>::empty(),
        recent_history(log.push(e), limit) == Seq::<HistoryItem>::empty(),
{
    assert(recent_history(log.push(e), limit) =~= Seq::<HistoryItem>::empty());
}

/// The recent-history window lists real ticket calls only: close and
/// reset markers never appear in it.
pub proof fn lemma_history_window_holds_only_tickets(log: Seq<HistoryItem>, limit: int)
    requires
        0 <= limit,
    ensures
        forall|i: int|
            0 <= i < recent_history(log, limit).len() ==> is_ticket(
                #[trigger] recent_history(log, limit)[i],
            ),
{
    lemma_session_members_are_tickets(log);
    let asc = session_tickets(log);
    let w = recent_history(log, limit);
    assert forall|i: int| 0 <= i < w.len() implies is_ticket(w[i]) by {
        let n = asc.len() as int;
        assert(w[i] == asc[n - 2 - i]);
        assert(is_ticket(asc[n - 2 - i]));
    }
}

/// Every row the session keeps is a real ticket call.
proof fn lemma_session_members_are_tickets(log: Seq<HistoryItem>)
    ensures
        forall|i: int|
            0 <= i < session_tickets(log).len() ==> is_ticket(#[trigger] session_tickets(log)[i]),
    decreases log.len(),
{
    if log.len() > 0 {
        lemma_session_members_are_tickets(log.drop_last());
        let s0 = session_tickets(log.drop_last());
        let s = session_tickets(log);
        if !is_reset(log.last()) && is_ticket(log.last()) {
            assert forall|i: int| 0 <= i < s.len() implies is_ticket(s[i]) by {
                if i < s0.len() {
                    assert(s[i] == s0[i]);
                } else {
                    assert(s[i] == log.last());
                }
            }
        }
    }
}

/// The statistics output drops the close-marker rows: they only end the
/// duration of the ticket before them, and no returned row carries a
/// negative ticket number.
pub proof fn lemma_stats_hold_only_tickets(rows: Seq<TicketStats>)
    ensures
        forall|i: int|
            0 <= i < desc_ticket_rows(rows).len() ==> (#[trigger] desc_ticket_rows(
                rows,
            )[i]).ticket_number >= 0,
    decreases rows.len(),
{
    if rows.len() > 0 {
        lemma_stats_hold_only_tickets(rows.drop_first());
        let s0 = desc_ticket_rows(rows.drop_first());
        let s = desc_ticket_rows(rows);
        if rows.first().ticket_number >= 0 {
            assert forall|i: int| 0 <= i < s.len() implies s[i].ticket_number >= 0 by {
                if i < s0.len() {
                    assert(s[i] == s0[i]);
                } else {
                    assert(s[i] == rows.first());
                }
            }
        }
    }
}

/// A subscriber registered before a publish receives the message exactly
/// once, as long as its queue has room, and the publish puts nothing else
/// into its queue.
pub proof fn lemma_publish_delivers_once(q: Seq<Msg>, m: Msg, cap: int)
    requires
        q.len() < cap,
    ensures
        msg_count(deliver(q, m, cap), m) == msg_count(q, m) + 1,
        forall|x: Msg| x != m ==> msg_count(deliver(q, m, cap), x) == msg_count(q, x),
{
    assert(q.push(m).drop_last() =~= q);
}

/// A subscriber registered after a publish missed it: its queue starts
/// with the acknowledgement alone and holds no copy of any earlier
/// message.
pub proof fn lemma_late_subscriber_has_only_ack(m: Msg)
    requires
        !(m is Connected),
    ensures
        msg_count(seq![Msg::Connected], m) == 0,
{
    let q = seq![Msg::Connected];
    assert(q.drop_last() =~= Seq::<Msg>::empty());
    assert(msg_count(q.drop_last(), m) == 0);
    assert(q.last() != m);
}

} // verus!
