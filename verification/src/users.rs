//! The `users` command and the rows of the user table.

use vstd::prelude::*;
use crate::text::{or_empty, text_or_empty};

verus! {

/// The `users` command.
pub struct UsersCmd {
    pub action: UsersAction,
}

/// What the `users` command does.
pub enum UsersAction {
    /// List users, optionally only the active ones.
    List { active: bool },
}

/// A user as the list command reads it.
pub struct UserListItem {
    pub id: Option<String>,
    pub name: Option<String>,
    pub display_name: Option<String>,
    pub email: Option<String>,
    pub active: Option<bool>,
}

/// A row of the user table.
pub struct UserRow {
    pub id: String,
    pub name: String,
    pub display_name: String,
    pub email: String,
    pub active: bool,
}

/// Whether a user is listed: all users, or with `active_only` those marked active.
pub open spec fn user_listed(active_only: bool) -> spec_fn(UserListItem) -> bool {
    |u: UserListItem| !active_only || u.active == Some(true)
}

/// The table row of a user: missing values empty, a missing flag false.
pub open spec fn user_row_of(u: UserListItem, r: UserRow) -> bool {
    &&& r.id@ == or_empty(u.id)
    &&& r.name@ == or_empty(u.name)
    &&& r.display_name@ == or_empty(u.display_name)
    &&& r.email@ == or_empty(u.email)
    &&& r.active == (u.active == Some(true))
}

/// The table row of a user.
pub fn user_row(u: &UserListItem) -> (r: UserRow)
    ensures
        user_row_of(*u, r),
{
    UserRow {
        id: text_or_empty(&u.id),
        name: text_or_empty(&u.name),
        display_name: text_or_empty(&u.display_name),
        email: text_or_empty(&u.email),
        active: u.active == Some(true),
    }
}

/// The user table: the rows of the listed users, in order.
pub fn user_rows(users: &Vec<UserListItem>, active_only: bool) -> (r: Vec<UserRow>)
    ensures
        r@.len() == users@.filter(user_listed(active_only)).len(),
        forall|k: int| 0 <= k < r@.len() ==> user_row_of(users@.filter(user_listed(active_only))[k], #[trigger] r@[k]),
{
    let ghost p = user_listed(active_only);
    let mut rows: Vec<UserRow> = Vec::new();
    let n = users.len();
    let mut i: usize = 0;
    assert(users@.take(0).filter(p) =~= Seq::<UserListItem>::empty()) by {
        reveal_with_fuel(Seq::<_>::filter, 1);
    }
    while i < n
        invariant
            n == users@.len(),
            p == user_listed(active_only),
            i <= n,
            rows@.len() == users@.take(i as int).filter(p).len(),
            forall|k: int| 0 <= k < rows@.len() ==> user_row_of(users@.take(i as int).filter(p)[k], #[trigger] rows@[k]),
        decreases n - i,
    {
        proof {
            crate::seqs::lemma_filter_take_step(users@, p, i as int);
        }
        let u = &users[i];
        if !active_only || u.active == Some(true) {
            let row = user_row(u);
            rows.push(row);
        }
        i = i + 1;
    }
    assert(users@.take(n as int) =~= users@);
    rows
}

} // verus!
