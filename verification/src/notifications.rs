//! The `notifications` command: what it accepts, the unread filter, and the rows
//! of the notification table.

use vstd::prelude::*;
use crate::seqs::lemma_filter_take_step;
use crate::text::{or_empty, text_or_empty};

verus! {

/// The `notifications` command.
pub struct NotificationsCmd {
    pub action: NotificationsAction,
}

/// What the `notifications` command does.
pub enum NotificationsAction {
    /// List notifications, optionally only unread ones.
    List { limit: i64, unread: bool },
    /// Read a notification.
    Read { id: String },
    /// Mark a notification as read.
    MarkRead { id: String },
    /// Archive a notification.
    Archive { id: String },
    /// Unarchive a notification.
    Unarchive { id: String },
}

/// A notification as the list command reads it.
pub struct NotificationSummary {
    pub id: Option<String>,
    pub kind: Option<String>,
    pub title: Option<String>,
    pub read_at: Option<String>,
    pub created_at: Option<String>,
    pub url: Option<String>,
}

/// A row of the notification table.
pub struct NotificationRow {
    pub id: String,
    pub kind: String,
    pub title: String,
    pub read: String,
    pub created_at: String,
}

/// Whether a notification is listed: all, or with `unread` those never read.
pub open spec fn notification_listed(unread: bool) -> spec_fn(NotificationSummary) -> bool {
    |n: NotificationSummary| !unread || n.read_at is None
}

/// The notifications that a sequence of references points at.
pub open spec fn nderefs(v: Seq<&NotificationSummary>) -> Seq<NotificationSummary> {
    v.map_values(|n: &NotificationSummary| *n)
}

/// The notifications to list, in order: all, or with `unread` those not read yet.
pub fn listed_notifications(items: &Vec<NotificationSummary>, unread: bool) -> (r: Vec<&NotificationSummary>)
    ensures
        nderefs(r@) == items@.filter(notification_listed(unread)),
{
    let ghost p = notification_listed(unread);
    let mut out: Vec<&NotificationSummary> = Vec::new();
    let n = items.len();
    let mut i: usize = 0;
    assert(items@.take(0).filter(p) =~= Seq::<NotificationSummary>::empty()) by {
        reveal_with_fuel(Seq::<_>::filter, 1);
    }
    while i < n
        invariant
            n == items@.len(),
            p == notification_listed(unread),
            i <= n,
            nderefs(out@) =~= items@.take(i as int).filter(p),
        decreases n - i,
    {
        proof {
            lemma_filter_take_step(items@, p, i as int);
        }
        let it = &items[i];
        if !unread || it.read_at.is_none() {
            let ghost before = out@;
            out.push(it);
            assert(nderefs(out@) =~= nderefs(before).push(*it));
        }
        i = i + 1;
    }
    assert(items@.take(n as int) =~= items@);
    out
}

/// The table row of a notification: read or not as `yes`/`no`, missing values empty.
pub fn notification_row(n: &NotificationSummary) -> (r: NotificationRow)
    ensures
        r.id@ == or_empty(n.id),
        r.kind@ == or_empty(n.kind),
        r.title@ == or_empty(n.title),
        r.read@ == (if n.read_at is Some { "yes"@ } else { "no"@ }),
        r.created_at@ == or_empty(n.created_at),
{
    NotificationRow {
        id: text_or_empty(&n.id),
        kind: text_or_empty(&n.kind),
        title: text_or_empty(&n.title),
        read: if n.read_at.is_some() {
            String::from_str("yes")
        } else {
            String::from_str("no")
        },
        created_at: text_or_empty(&n.created_at),
    }
}

} // verus!
