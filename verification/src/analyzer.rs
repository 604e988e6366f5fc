//! The historical-event analysis: the recent-history window shown beside
//! the live number, and the per-desk durations derived by pairing each
//! event of a desk with its successor over one consistent snapshot.

use vstd::prelude::*;

use crate::database::Database;
use crate::log::{
    desc_ticket_rows, desk_session_events, desk_stats, latest_reset_time, paired_rows,
    recent_history, session_tickets,
};
use crate::types::{HistoryItem, TicketStats};
use crate::util::str_eq;

verus! {

/// A fresh copy of one log row.
fn copy_item(e: &HistoryItem) -> (r: HistoryItem)
    ensures
        r == *e,
{
    HistoryItem {
        id: e.id,
        ticket_number: e.ticket_number,
        desk_name: e.desk_name.clone(),
        created_at: e.created_at,
    }
}

impl Database {
    /// The recent-history window: the tickets of the running session,
    /// newest first, without the one still on display, at most 5 of them.
    pub fn get_history(&self) -> (r: Vec<HistoryItem>)
        ensures
            r@ == recent_history(self.history@, 5),
    {
        let log = &self.history;
        let mut asc: Vec<HistoryItem> = Vec::new();
        let mut i: usize = 0;
        while i < log.len()
            invariant
                i <= log@.len(),
                asc@ == session_tickets(log@.take(i as int)),
            decreases log@.len() - i,
        {
            proof {
                assert(log@.take(i + 1).drop_last() =~= log@.take(i as int));
                assert(log@.take(i + 1).last() == log@[i as int]);
            }
            if log[i].ticket_number == -2 {
                asc = Vec::new();
            } else if log[i].ticket_number >= 0 {
                let e = copy_item(&log[i]);
                asc.push(e);
            }
            i = i + 1;
        }
        proof {
            assert(log@.take(log@.len() as int) =~= log@);
        }
        let n = asc.len();
        let mut out: Vec<HistoryItem> = Vec::new();
        if n >= 2 {
            let limit = if n - 1 < 5 {
                n - 1
            } else {
                5
            };
            let mut k: usize = 0;
            while k < limit
                invariant
                    n == asc@.len(),
                    2 <= n,
                    limit <= n - 1,
                    k <= limit,
                    out@.len() == k,
                    forall|j: int| 0 <= j < k ==> #[trigger] out@[j] == asc@[n - 2 - j],
                decreases limit - k,
            {
                let e = copy_item(&asc[n - 2 - k]);
                out.push(e);
                k = k + 1;
            }
        }
        proof {
            assert(out@ =~= recent_history(self.history@, 5));
        }
        out
    }

    /// The per-desk statistics of the running session: each ticket of
    /// `desk_name`, its duration ended by the desk's next event — a later
    /// ticket or the close marker — newest first. The session's last event
    /// has no successor, so its end and duration stay open.
    pub fn get_desk_statistics(&self, desk_name: &str) -> (r: Vec<TicketStats>)
        ensures
            r@ == desk_stats(self.history@, desk_name@),
    {
        let log = &self.history;
        // One consistent snapshot of the desk's session events, oldest
        // first, after the latest reset.
        let mut start: u64 = 0;
        let mut i: usize = 0;
        while i < log.len()
            invariant
                i <= log@.len(),
                start == latest_reset_time(log@.take(i as int)),
            decreases log@.len() - i,
        {
            proof {
                assert(log@.take(i + 1).drop_last() =~= log@.take(i as int));
                assert(log@.take(i + 1).last() == log@[i as int]);
            }
            if log[i].ticket_number == -2 {
                start = log[i].created_at;
            }
            i = i + 1;
        }
        let mut raw: Vec<HistoryItem> = Vec::new();
        i = 0;
        while i < log.len()
            invariant
                i <= log@.len(),
                raw@ == desk_session_events(log@.take(i as int), desk_name@, start as int),
            decreases log@.len() - i,
        {
            proof {
                assert(log@.take(i + 1).drop_last() =~= log@.take(i as int));
                assert(log@.take(i + 1).last() == log@[i as int]);
            }
            if log[i].ticket_number >= -1 && log[i].created_at > start && str_eq(
                log[i].desk_name.as_str(),
                desk_name,
            ) {
                let e = copy_item(&log[i]);
                raw.push(e);
            }
            i = i + 1;
        }
        proof {
            assert(log@.take(log@.len() as int) =~= log@);
        }
        // Pair every event with its successor's timestamp.
        let m = raw.len();
        let mut rows: Vec<TicketStats> = Vec::new();
        i = 0;
        while i < m
            invariant
                m == raw@.len(),
                i <= m,
                rows@.len() == i,
                forall|j: int|
                    0 <= j < i ==> #[trigger] rows@[j] == crate::log::stat_row(
                        raw@[j],
                        if j + 1 < m {
                            Some(raw@[j + 1])
                        } else {
                            None
                        },
                    ),
            decreases m - i,
        {
            let row = if i + 1 < m {
                let dur = if raw[i + 1].created_at >= raw[i].created_at {
                    raw[i + 1].created_at - raw[i].created_at
                } else {
                    0
                };
                TicketStats {
                    ticket_number: raw[i].ticket_number,
                    desk_name: raw[i].desk_name.clone(),
                    start_time: raw[i].created_at,
                    end_time: Some(raw[i + 1].created_at),
                    duration_seconds: Some(dur),
                }
            } else {
                TicketStats {
                    ticket_number: raw[i].ticket_number,
                    desk_name: raw[i].desk_name.clone(),
                    start_time: raw[i].created_at,
                    end_time: None,
                    duration_seconds: None,
                }
            };
            rows.push(row);
            i = i + 1;
        }
        proof {
            assert(rows@ =~= paired_rows(raw@));
        }
        // Show only the real tickets, newest first.
        let mut out: Vec<TicketStats> = Vec::new();
        let mut k: usize = m;
        while k > 0
            invariant
                m == rows@.len(),
                k <= m,
                out@ == desc_ticket_rows(rows@.skip(k as int)),
            decreases k,
        {
            k = k - 1;
            proof {
                assert(rows@.skip(k as int).drop_first() =~= rows@.skip(k + 1));
                assert(rows@.skip(k as int).first() == rows@[k as int]);
            }
            if rows[k].ticket_number >= 0 {
                let row = TicketStats {
                    ticket_number: rows[k].ticket_number,
                    desk_name: rows[k].desk_name.clone(),
                    start_time: rows[k].start_time,
                    end_time: rows[k].end_time,
                    duration_seconds: rows[k].duration_seconds,
                };
                out.push(row);
            }
        }
        proof {
            assert(rows@.skip(0) =~= rows@);
        }
        out
    }
}

} // verus!
