//! Cycles: the status label shown in the table, and the window of cycles around
//! the active one.

use vstd::prelude::*;
use crate::seqs::{first_match, lemma_filter_take_step, lemma_first_match_none, lemma_first_match_unique};
use crate::ids::{is_uuid, uuid_text};
use crate::text::{decimal_text, i64_text, integer_value, or_empty, parse_i64, text_or_empty};

verus! {

/// A cycle as the list command reads it.
pub struct CycleListItem {
    pub id: Option<String>,
    pub number: Option<i64>,
    pub name: Option<String>,
    pub starts_at: Option<String>,
    pub ends_at: Option<String>,
    pub is_active: Option<bool>,
    pub is_next: Option<bool>,
    pub is_previous: Option<bool>,
    pub is_future: Option<bool>,
    pub is_past: Option<bool>,
}

/// A row of the cycle table.
pub struct CycleRow {
    pub id: String,
    pub number: String,
    pub name: String,
    pub starts_at: String,
    pub ends_at: String,
    pub active: String,
}

/// The status word of a cycle: the first of active, next, previous, future, past
/// that is set, or nothing.
pub open spec fn cycle_status(c: CycleListItem) -> Seq<char> {
    if c.is_active == Some(true) {
        "active"@
    } else if c.is_next == Some(true) {
        "next"@
    } else if c.is_previous == Some(true) {
        "previous"@
    } else if c.is_future == Some(true) {
        "future"@
    } else if c.is_past == Some(true) {
        "past"@
    } else {
        Seq::empty()
    }
}

/// The status word of a cycle for the table.
pub fn cycle_status_label(cycle: &CycleListItem) -> (r: String)
    ensures
        r@ == cycle_status(*cycle),
{
    if cycle.is_active == Some(true) {
        String::from_str("active")
    } else if cycle.is_next == Some(true) {
        String::from_str("next")
    } else if cycle.is_previous == Some(true) {
        String::from_str("previous")
    } else if cycle.is_future == Some(true) {
        String::from_str("future")
    } else if cycle.is_past == Some(true) {
        String::from_str("past")
    } else {
        String::new()
    }
}

/// A cycle that is marked active.
pub open spec fn is_active_cycle() -> spec_fn(CycleListItem) -> bool {
    |c: CycleListItem| c.is_active == Some(true)
}

/// The number of the first active cycle, if there is one and it has a number.
pub open spec fn active_number(cycles: Seq<CycleListItem>) -> Option<i64> {
    match first_match(cycles, is_active_cycle()) {
        Some(i) => cycles[i].number,
        None => None,
    }
}

/// A cycle whose number lies in `lo..=hi`.
pub open spec fn number_within(lo: int, hi: int) -> spec_fn(CycleListItem) -> bool {
    |c: CycleListItem|
        match c.number {
            Some(k) => lo <= k && k <= hi,
            None => false,
        }
}

/// The cycles around the active one: `None` when no cycle is active (or the active
/// one has no number); otherwise, in their order, the cycles whose number is within
/// `n` of the active cycle's number.
pub open spec fn around_active(cycles: Seq<CycleListItem>, n: int) -> Option<Seq<CycleListItem>> {
    match active_number(cycles) {
        Some(a) => Some(cycles.filter(number_within(a - n, a + n))),
        None => None,
    }
}

/// The cycles that a sequence of references points at.
pub open spec fn derefs(v: Seq<&CycleListItem>) -> Seq<CycleListItem> {
    v.map_values(|c: &CycleListItem| *c)
}

/// The first active cycle.
fn first_active(cycles: &[CycleListItem]) -> (r: Option<usize>)
    ensures
        match r {
            Some(i) => i < cycles@.len() && first_match(cycles@, is_active_cycle()) == Some(
                i as int,
            ),
            None => first_match(cycles@, is_active_cycle()) == None::<int>,
        },
{
    let n = cycles.len();
    let mut i: usize = 0;
    while i < n
        invariant
            n == cycles@.len(),
            i <= n,
            forall|j: int| 0 <= j < i ==> !(#[trigger] is_active_cycle()(cycles@[j])),
        decreases n - i,
    {
        if cycles[i].is_active == Some(true) {
            proof {
                lemma_first_match_unique(cycles@, is_active_cycle(), i as int);
            }
            return Some(i);
        }
        i = i + 1;
    }
    proof {
        lemma_first_match_none(cycles@, is_active_cycle());
    }
    None
}

/// The active cycle and its neighbours within `n` by number. `None` means that no
/// active cycle (with a number) was found, which the caller reports.
pub fn around_active_filter(cycles: &[CycleListItem], n: i64) -> (r: Option<Vec<&CycleListItem>>)
    requires
        match active_number(cycles@) {
            Some(a) => i64::MIN <= a - n && a + n <= i64::MAX,
            None => true,
        },
    ensures
        match around_active(cycles@, n as int) {
            Some(s) => r matches Some(v) && derefs(v@) == s,
            None => r is None,
        },
{
    let idx = first_active(cycles);
    if idx.is_none() {
        return None;
    }
    let i = idx.unwrap();
    if cycles[i].number.is_none() {
        return None;
    }
    let a = cycles[i].number.unwrap();
    assert(active_number(cycles@) == Some(a));
    let lo: i128 = a as i128 - n as i128;
    let hi: i128 = a as i128 + n as i128;
    let ghost p = number_within(lo as int, hi as int);
    let mut out: Vec<&CycleListItem> = Vec::new();
    let len = cycles.len();
    let mut i: usize = 0;
    assert(cycles@.take(0).filter(p) =~= Seq::<CycleListItem>::empty()) by {
        reveal_with_fuel(Seq::<_>::filter, 1);
    }
    while i < len
        invariant
            len == cycles@.len(),
            p == number_within(lo as int, hi as int),
            i <= len,
            derefs(out@) =~= cycles@.take(i as int).filter(p),
        decreases len - i,
    {
        proof {
            lemma_filter_take_step(cycles@, p, i as int);
        }
        let c = &cycles[i];
        match c.number {
            Some(k) => {
                if lo <= k as i128 && k as i128 <= hi {
                    let ghost before = out@;
                    out.push(c);
                    assert(derefs(out@) =~= derefs(before).push(*c));
                }
            },
            None => {},
        }
        i = i + 1;
    }
    assert(cycles@.take(len as int) =~= cycles@);
    Some(out)
}

/// The table row of a cycle.
pub open spec fn cycle_row_of(c: CycleListItem, r: CycleRow) -> bool {
    &&& r.id@ == or_empty(c.id)
    &&& r.number@ == match c.number {
        Some(k) => decimal_text(k as int),
        None => Seq::empty(),
    }
    &&& r.name@ == or_empty(c.name)
    &&& r.starts_at@ == or_empty(c.starts_at)
    &&& r.ends_at@ == or_empty(c.ends_at)
    &&& r.active@ == cycle_status(c)
}


/// The table row of a cycle; missing values are shown empty.
pub fn cycle_row(c: &CycleListItem) -> (r: CycleRow)
    ensures
        cycle_row_of(*c, r),
        r.starts_at@ == or_empty(c.starts_at),
        r.ends_at@ == or_empty(c.ends_at),
{
    CycleRow {
        id: text_or_empty(&c.id),
        number: match c.number {
            Some(k) => i64_text(k),
            None => String::new(),
        },
        name: text_or_empty(&c.name),
        starts_at: text_or_empty(&c.starts_at),
        ends_at: text_or_empty(&c.ends_at),
        active: cycle_status_label(c),
    }
}


/// The `cycles` command.
pub struct CyclesCmd {
    pub action: CyclesAction,
}

/// What the `cycles` command does.
pub enum CyclesAction {
    /// List cycles: at most `limit`, optionally of a team, only the active one, or
    /// the active one with `around_active` neighbours on each side.
    List { limit: i64, team: Option<String>, active: bool, around_active: Option<i64> },
    /// Read a cycle by UUID, or by name or number within a team.
    Read { id: String, team: Option<String> },
}

/// How `cycles read` finds the cycle.
#[derive(PartialEq, Eq, Structural, Clone, Copy, Debug)]
pub enum CycleReadPlan {
    /// The argument is the cycle's UUID.
    ById,
    /// Look up the team's cycle with this number.
    ByNumber(i64),
    /// Look up the team's cycle with this name.
    ByName,
}

/// How `cycles read` goes about it: a UUID is read directly; anything else needs
/// `--team`, and is a number when it parses as one, a name otherwise.
pub fn cycle_read_plan(id: &str, team: &Option<String>) -> (r: Result<CycleReadPlan, String>)
    ensures
        uuid_text(id@) ==> r == Ok::<CycleReadPlan, String>(CycleReadPlan::ById),
        !uuid_text(id@) && team is None ==> (r matches Err(e) && e@
            == "Looking up cycles by name/number requires --team. Use a UUID to read without --team."@),
        !uuid_text(id@) && team is Some ==> match integer_value(id@) {
            Some(v) => if i64::MIN <= v <= i64::MAX {
                r matches Ok(CycleReadPlan::ByNumber(k)) && k == v
            } else {
                r == Ok::<CycleReadPlan, String>(CycleReadPlan::ByName)
            },
            None => r == Ok::<CycleReadPlan, String>(CycleReadPlan::ByName),
        },
{
    if is_uuid(id) {
        return Ok(CycleReadPlan::ById);
    }
    if team.is_none() {
        return Err(
            String::from_str(
                "Looking up cycles by name/number requires --team. Use a UUID to read without --team.",
            ),
        );
    }
    match parse_i64(id) {
        Some(k) => Ok(CycleReadPlan::ByNumber(k)),
        None => Ok(CycleReadPlan::ByName),
    }
}

/// Law: a cycle's row shows its start in the start column and its end in the end
/// column, and its id and name as they are.
pub proof fn law_cycle_row_columns(c: CycleListItem, r: CycleRow)
    requires
        cycle_row_of(c, r),
    ensures
        c.starts_at matches Some(s) ==> r.starts_at@ == s@,
        c.ends_at matches Some(e) ==> r.ends_at@ == e@,
        c.starts_at is None ==> r.starts_at@.len() == 0,
        c.ends_at is None ==> r.ends_at@.len() == 0,
        c.id matches Some(i) ==> r.id@ == i@,
        c.name matches Some(n) ==> r.name@ == n@,
{
}

/// Law: the window around the active cycle only holds cycles whose number is
/// within `n` of the active cycle's number, and it holds the active cycle itself
/// when `n` is not negative.
pub proof fn law_around_active_window(cycles: Seq<CycleListItem>, n: int)
    requires
        around_active(cycles, n) is Some,
    ensures
        forall|k: int| 0 <= k < around_active(cycles, n)->0.len() ==> #[trigger] number_within(
            active_number(cycles)->0 - n,
            active_number(cycles)->0 + n,
        )(around_active(cycles, n)->0[k]),
        n >= 0 ==> around_active(cycles, n)->0.contains(cycles[first_match(cycles, is_active_cycle())->0]),
{
    let a = active_number(cycles)->0;
    let p = number_within(a - n, a + n);
    let w = cycles.filter(p);
    assert forall|k: int| 0 <= k < w.len() implies #[trigger] p(w[k]) by {
        cycles.lemma_filter_pred(p, k);
    }
    crate::seqs::lemma_first_match(cycles, is_active_cycle());
    if n >= 0 {
        let i = first_match(cycles, is_active_cycle())->0;
        cycles.lemma_filter_contains(p, i);
    }
}

} // verus!
