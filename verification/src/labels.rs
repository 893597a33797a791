//! Labels: the rows of the label table, the order in which they are listed
//! (each group followed by its children, then the remaining labels, each part in
//! name order), and the fields that a label update sends.

use vstd::prelude::*;
use crate::seqs::{
    first_match, lemma_filter_take_step, lemma_first_match, lemma_first_match_none,
    lemma_first_match_unique,
};
use crate::text::{
    lemma_text_lt_asymmetric, lemma_text_lt_transitive, or_empty, text_less, text_lt,
    text_or_empty, views,
};

verus! {

/// The team of a label.
pub struct LabelTeamRef {
    pub key: Option<String>,
}

/// The group a label belongs to.
pub struct LabelParentRef {
    pub name: Option<String>,
}

/// A label as the list command reads it.
pub struct LabelSummary {
    pub id: Option<String>,
    pub name: Option<String>,
    pub color: Option<String>,
    pub is_group: Option<bool>,
    pub team: Option<LabelTeamRef>,
    pub parent: Option<LabelParentRef>,
}

/// A row of the label table.
pub struct LabelRow {
    pub id: String,
    pub name: String,
    pub color: String,
    pub is_label_group: String,
    pub team: String,
    pub parent_label: String,
}

/// The key a label is sorted by: its name, empty when missing.
pub open spec fn name_key(l: LabelSummary) -> Seq<char> {
    or_empty(l.name)
}

/// The labels that a sequence of references points at.
pub open spec fn lderefs(v: Seq<&LabelSummary>) -> Seq<LabelSummary> {
    v.map_values(|l: &LabelSummary| *l)
}

/// A label whose name sorts strictly after `k`.
pub open spec fn sorts_after(k: Seq<char>) -> spec_fn(LabelSummary) -> bool {
    |y: LabelSummary| text_lt(k, name_key(y))
}

/// Where `x` goes in `t`: before the first label whose name sorts after its own,
/// so that it follows every label with an equal name.
pub open spec fn insert_position(x: LabelSummary, t: Seq<LabelSummary>) -> int {
    match first_match(t, sorts_after(name_key(x))) {
        Some(i) => i,
        None => t.len() as int,
    }
}

/// `t` with `x` put in its place by name.
pub open spec fn insert_by_name(x: LabelSummary, t: Seq<LabelSummary>) -> Seq<LabelSummary> {
    t.insert(insert_position(x, t), x)
}

/// `s` in name order, labels with equal names keeping their relative order (a
/// stable sort, as `slice::sort_by` is).
pub open spec fn sort_by_name(s: Seq<LabelSummary>) -> Seq<LabelSummary>
    decreases s.len(),
{
    if s.len() == 0 {
        s
    } else {
        insert_by_name(s.last(), sort_by_name(s.drop_last()))
    }
}

/// Whether label `a` sorts strictly before label `b` by name.
fn name_before(a: &LabelSummary, b: &LabelSummary) -> (r: bool)
    ensures
        r == text_lt(name_key(*a), name_key(*b)),
{
    let x = text_or_empty(&a.name);
    let y = text_or_empty(&b.name);
    text_less(x.as_str(), y.as_str())
}

/// Sorts label references by name, stably.
pub fn sort_by_name_refs<'a>(v: Vec<&'a LabelSummary>) -> (r: Vec<&'a LabelSummary>)
    ensures
        lderefs(r@) == sort_by_name(lderefs(v@)),
{
    let ghost s = lderefs(v@);
    let mut out: Vec<&LabelSummary> = Vec::new();
    let n = v.len();
    let mut i: usize = 0;
    assert(s.take(0) =~= Seq::<LabelSummary>::empty());
    assert(lderefs(out@) =~= Seq::<LabelSummary>::empty());
    while i < n
        invariant
            n == v@.len(),
            s == lderefs(v@),
            i <= n,
            lderefs(out@) == sort_by_name(s.take(i as int)),
        decreases n - i,
    {
        let x = v[i];
        let ghost t = lderefs(out@);
        let ghost p = sorts_after(name_key(*x));
        let mut j: usize = 0;
        while j < out.len() && !name_before(x, out[j])
            invariant
                t == lderefs(out@),
                p == sorts_after(name_key(*x)),
                j <= out@.len(),
                forall|k: int| 0 <= k < j ==> !(#[trigger] p(t[k])),
            decreases out@.len() - j,
        {
            j = j + 1;
        }
        proof {
            if j < t.len() {
                lemma_first_match_unique(t, p, j as int);
            } else {
                lemma_first_match_none(t, p);
            }
            assert(s.take(i + 1).drop_last() =~= s.take(i as int));
            assert(s.take(i + 1).last() == *x);
        }
        out.insert(j, x);
        assert(lderefs(out@) =~= t.insert(j as int, *x));
        i = i + 1;
    }
    assert(s.take(n as int) =~= s);
    out
}


/// A label that is a group.
pub open spec fn is_group_label() -> spec_fn(LabelSummary) -> bool {
    |l: LabelSummary| l.is_group == Some(true)
}

/// A label whose group's name is exactly `g`.
pub open spec fn parent_name_is(g: Seq<char>) -> spec_fn(LabelSummary) -> bool {
    |l: LabelSummary|
        match l.parent {
            Some(p) => match p.name {
                Some(n) => n@ == g,
                None => false,
            },
            None => false,
        }
}

/// A group followed by its children in name order.
pub open spec fn group_block(ls: Seq<LabelSummary>, g: LabelSummary) -> Seq<LabelSummary> {
    seq![g] + sort_by_name(ls.filter(parent_name_is(name_key(g))))
}

/// The blocks of the groups `gs`, in order.
pub open spec fn group_blocks(ls: Seq<LabelSummary>, gs: Seq<LabelSummary>) -> Seq<LabelSummary>
    decreases gs.len(),
{
    if gs.len() == 0 {
        Seq::empty()
    } else {
        group_blocks(ls, gs.drop_last()) + group_block(ls, gs.last())
    }
}

/// The id a label is tracked by: its id, empty when missing.
pub open spec fn id_key(l: LabelSummary) -> Seq<char> {
    or_empty(l.id)
}

/// The ids of the labels in `s`.
pub open spec fn id_keys(s: Seq<LabelSummary>) -> Seq<Seq<char>> {
    s.map_values(|l: LabelSummary| id_key(l))
}

/// Every group with its children, groups in their listed order.
pub open spec fn grouped(ls: Seq<LabelSummary>) -> Seq<LabelSummary> {
    group_blocks(ls, ls.filter(is_group_label()))
}

/// A label whose id is not among `used`.
pub open spec fn not_used(used: Seq<Seq<char>>) -> spec_fn(LabelSummary) -> bool {
    |l: LabelSummary| !used.contains(id_key(l))
}

/// The labels whose id did not appear among the groups and their children, in name order.
pub open spec fn ungrouped(ls: Seq<LabelSummary>) -> Seq<LabelSummary> {
    sort_by_name(ls.filter(not_used(id_keys(grouped(ls)))))
}

/// The order of the label table: each group (in listed order) followed by its
/// children sorted by name, then every label whose id was not shown yet, sorted by name.
pub open spec fn label_order(ls: Seq<LabelSummary>) -> Seq<LabelSummary> {
    grouped(ls) + ungrouped(ls)
}

/// The labels whose group is named `gname`, in listed order.
fn children_named<'a>(labels: &'a Vec<LabelSummary>, gname: &String) -> (r: Vec<&'a LabelSummary>)
    ensures
        lderefs(r@) == labels@.filter(parent_name_is(gname@)),
{
    let ghost p = parent_name_is(gname@);
    let mut out: Vec<&LabelSummary> = Vec::new();
    let n = labels.len();
    let mut i: usize = 0;
    assert(labels@.take(0).filter(p) =~= Seq::<LabelSummary>::empty()) by {
        reveal_with_fuel(Seq::<_>::filter, 1);
    }
    while i < n
        invariant
            n == labels@.len(),
            p == parent_name_is(gname@),
            i <= n,
            lderefs(out@) =~= labels@.take(i as int).filter(p),
        decreases n - i,
    {
        proof {
            lemma_filter_take_step(labels@, p, i as int);
        }
        let l = &labels[i];
        let hit = match &l.parent {
            Some(pr) => match &pr.name {
                Some(nm) => nm.eq(gname),
                None => false,
            },
            None => false,
        };
        if hit {
            let ghost before = out@;
            out.push(l);
            assert(lderefs(out@) =~= lderefs(before).push(*l));
        }
        i = i + 1;
    }
    assert(labels@.take(n as int) =~= labels@);
    out
}

/// Whether `x` is among `used`.
fn contains_text(used: &Vec<String>, x: &String) -> (r: bool)
    ensures
        r == views(used@).contains(x@),
{
    let n = used.len();
    let mut i: usize = 0;
    while i < n
        invariant
            n == used@.len(),
            i <= n,
            forall|j: int| 0 <= j < i ==> used@[j]@ != x@,
        decreases n - i,
    {
        if used[i].eq(x) {
            assert(views(used@)[i as int] == x@);
            return true;
        }
        i = i + 1;
    }
    assert(!views(used@).contains(x@)) by {
        if views(used@).contains(x@) {
            let k = choose|k: int| 0 <= k < views(used@).len() && views(used@)[k] == x@;
            assert(used@[k]@ == x@);
        }
    }
    false
}

/// The labels whose id is not among `used`, in listed order.
fn labels_not_used<'a>(labels: &'a Vec<LabelSummary>, used: &Vec<String>) -> (r: Vec<&'a LabelSummary>)
    ensures
        lderefs(r@) == labels@.filter(not_used(views(used@))),
{
    let ghost p = not_used(views(used@));
    let mut out: Vec<&LabelSummary> = Vec::new();
    let n = labels.len();
    let mut i: usize = 0;
    assert(labels@.take(0).filter(p) =~= Seq::<LabelSummary>::empty()) by {
        reveal_with_fuel(Seq::<_>::filter, 1);
    }
    while i < n
        invariant
            n == labels@.len(),
            p == not_used(views(used@)),
            i <= n,
            lderefs(out@) =~= labels@.take(i as int).filter(p),
        decreases n - i,
    {
        proof {
            lemma_filter_take_step(labels@, p, i as int);
        }
        let l = &labels[i];
        let id = text_or_empty(&l.id);
        if !contains_text(used, &id) {
            let ghost before = out@;
            out.push(l);
            assert(lderefs(out@) =~= lderefs(before).push(*l));
        }
        i = i + 1;
    }
    assert(labels@.take(n as int) =~= labels@);
    out
}

/// Puts the labels in the order of the label table (see `label_order`).
pub fn order_labels(labels: &Vec<LabelSummary>) -> (r: Vec<&LabelSummary>)
    ensures
        lderefs(r@) == label_order(labels@),
{
    let ghost ls = labels@;
    let ghost p = is_group_label();
    let mut out: Vec<&LabelSummary> = Vec::new();
    let mut used: Vec<String> = Vec::new();
    let n = labels.len();
    let mut i: usize = 0;
    assert(ls.take(0).filter(p) =~= Seq::<LabelSummary>::empty()) by {
        reveal_with_fuel(Seq::<_>::filter, 1);
    }
    assert(lderefs(out@) =~= Seq::<LabelSummary>::empty());
    assert(views(used@) =~= Seq::<Seq<char>>::empty());
    while i < n
        invariant
            n == ls.len(),
            ls == labels@,
            p == is_group_label(),
            i <= n,
            lderefs(out@) == group_blocks(ls, ls.take(i as int).filter(p)),
            views(used@) == id_keys(lderefs(out@)),
        decreases n - i,
    {
        proof {
            lemma_filter_take_step(ls, p, i as int);
        }
        let g = &labels[i];
        if g.is_group == Some(true) {
            let ghost before = lderefs(out@);
            let ghost gs = ls.take(i as int).filter(p);
            assert(ls.take(i + 1).filter(p) == gs.push(*g));
            assert(gs.push(*g).drop_last() =~= gs);
            let gname = text_or_empty(&g.name);
            let kids = children_named(labels, &gname);
            let sorted = sort_by_name_refs(kids);
            let ghost used_before = used@;
            out.push(g);
            let gid = text_or_empty(&g.id);
            used.push(gid);
            assert(lderefs(out@) =~= before.push(*g));
            assert(views(used@) =~= views(used_before).push(gid@));
            assert(id_keys(lderefs(out@)) =~= id_keys(before).push(id_key(*g)));
            assert(lderefs(out@) =~= before + seq![*g]);
            let m = sorted.len();
            let mut k: usize = 0;
            while k < m
                invariant
                    m == sorted@.len(),
                    k <= m,
                    lderefs(out@) =~= before + seq![*g] + lderefs(sorted@).take(k as int),
                    views(used@) == id_keys(lderefs(out@)),
                decreases m - k,
            {
                let c = sorted[k];
                let ghost out_before = lderefs(out@);
                let ghost used_before = used@;
                out.push(c);
                let cid = text_or_empty(&c.id);
                used.push(cid);
                assert(lderefs(out@) =~= out_before.push(*c));
                assert(views(used@) =~= views(used_before).push(cid@));
                assert(id_keys(lderefs(out@)) =~= id_keys(out_before).push(id_key(*c)));
                assert(lderefs(sorted@).take(k + 1) =~= lderefs(sorted@).take(k as int).push(*c));
                assert(views(used@) =~= id_keys(lderefs(out@)));
                k = k + 1;
            }
            assert(lderefs(sorted@).take(m as int) =~= lderefs(sorted@));
            assert(group_block(ls, *g) =~= seq![*g] + lderefs(sorted@));
            assert(lderefs(out@) =~= before + group_block(ls, *g));
        }
        i = i + 1;
    }
    assert(ls.take(n as int) =~= ls);
    let ghost head = lderefs(out@);
    assert(head == grouped(ls));
    let rest = labels_not_used(labels, &used);
    let sorted_rest = sort_by_name_refs(rest);
    let m = sorted_rest.len();
    let mut k: usize = 0;
    while k < m
        invariant
            m == sorted_rest@.len(),
            k <= m,
            lderefs(out@) =~= head + lderefs(sorted_rest@).take(k as int),
        decreases m - k,
    {
        let c = sorted_rest[k];
        let ghost out_before = lderefs(out@);
        out.push(c);
        assert(lderefs(out@) =~= out_before.push(*c));
        assert(lderefs(sorted_rest@).take(k + 1) =~= lderefs(sorted_rest@).take(k as int).push(*c));
        k = k + 1;
    }
    assert(lderefs(sorted_rest@).take(m as int) =~= lderefs(sorted_rest@));
    out
}


/// The table row of a label: missing values are shown empty, a group says `yes`.
pub open spec fn label_row_of(l: LabelSummary, r: LabelRow) -> bool {
    &&& r.id@ == or_empty(l.id)
    &&& r.name@ == or_empty(l.name)
    &&& r.color@ == or_empty(l.color)
    &&& r.is_label_group@ == (if l.is_group == Some(true) {
        "yes"@
    } else {
        Seq::empty()
    })
    &&& r.team@ == match l.team {
        Some(t) => or_empty(t.key),
        None => Seq::empty(),
    }
    &&& r.parent_label@ == match l.parent {
        Some(p) => or_empty(p.name),
        None => Seq::empty(),
    }
}

/// The table row of a label.
pub fn label_to_row(l: &LabelSummary) -> (r: LabelRow)
    ensures
        label_row_of(*l, r),
{
    LabelRow {
        id: text_or_empty(&l.id),
        name: text_or_empty(&l.name),
        color: text_or_empty(&l.color),
        is_label_group: if l.is_group == Some(true) {
            String::from_str("yes")
        } else {
            String::new()
        },
        team: match &l.team {
            Some(t) => text_or_empty(&t.key),
            None => String::new(),
        },
        parent_label: match &l.parent {
            Some(p) => text_or_empty(&p.name),
            None => String::new(),
        },
    }
}

/// The label table: the rows of `label_order`, in that order.
pub fn label_rows(labels: &Vec<LabelSummary>) -> (r: Vec<LabelRow>)
    ensures
        r@.len() == label_order(labels@).len(),
        forall|k: int| 0 <= k < r@.len() ==> label_row_of(label_order(labels@)[k], #[trigger] r@[k]),
{
    let ordered = order_labels(labels);
    let mut rows: Vec<LabelRow> = Vec::new();
    let n = ordered.len();
    let mut i: usize = 0;
    while i < n
        invariant
            n == ordered@.len(),
            lderefs(ordered@) == label_order(labels@),
            i <= n,
            rows@.len() == i,
            forall|k: int| 0 <= k < i ==> label_row_of(label_order(labels@)[k], #[trigger] rows@[k]),
        decreases n - i,
    {
        let row = label_to_row(ordered[i]);
        assert(label_order(labels@)[i as int] == *ordered@[i as int]);
        rows.push(row);
        i = i + 1;
    }
    rows
}


/// A sequence of labels in name order.
pub open spec fn sorted_by_name(t: Seq<LabelSummary>) -> bool {
    forall|i: int, j: int| 0 <= i < j < t.len() ==> !text_lt(name_key(#[trigger] t[j]), name_key(#[trigger] t[i]))
}

/// A label with the name `k` (empty when missing).
pub open spec fn has_name(k: Seq<char>) -> spec_fn(LabelSummary) -> bool {
    |y: LabelSummary| name_key(y) == k
}

/// Inserting by name keeps a sorted sequence sorted.
proof fn lemma_insert_sorted(x: LabelSummary, t: Seq<LabelSummary>)
    requires
        sorted_by_name(t),
    ensures
        sorted_by_name(insert_by_name(x, t)),
        0 <= insert_position(x, t) <= t.len(),
        forall|j: int| insert_position(x, t) <= j < t.len() ==> text_lt(name_key(x), name_key(#[trigger] t[j])),
        forall|j: int| 0 <= j < insert_position(x, t) ==> !text_lt(name_key(x), name_key(#[trigger] t[j])),
{
    let p = sorts_after(name_key(x));
    lemma_first_match(t, p);
    let pos = insert_position(x, t);
    let u = insert_by_name(x, t);
    assert forall|j: int| pos <= j < t.len() implies text_lt(name_key(x), name_key(#[trigger] t[j])) by {
        if j > pos {
            assert(!text_lt(name_key(t[j]), name_key(t[pos])));
            if !text_lt(name_key(x), name_key(t[j])) {
                // x >= t[j] >= t[pos] > x is impossible
                crate::text::lemma_text_lt_total(name_key(x), name_key(t[j]));
                if name_key(x) != name_key(t[j]) {
                    lemma_text_lt_transitive(name_key(t[j]), name_key(x), name_key(t[pos]));
                }
            }
        }
    }
    assert forall|i: int, j: int| 0 <= i < j < u.len() implies !text_lt(
        name_key(#[trigger] u[j]),
        name_key(#[trigger] u[i]),
    ) by {
        if j < pos {
            assert(u[i] == t[i] && u[j] == t[j]);
        } else if j == pos {
            assert(u[i] == t[i] && u[j] == x);
        } else if i < pos {
            assert(u[i] == t[i] && u[j] == t[j - 1]);
            assert(text_lt(name_key(x), name_key(t[j - 1])));
            assert(!text_lt(name_key(x), name_key(t[i])));
            if text_lt(name_key(t[j - 1]), name_key(t[i])) {
                assert(!text_lt(name_key(t[j - 1]), name_key(t[i])));
            }
        } else if i == pos {
            assert(u[i] == x && u[j] == t[j - 1]);
            assert(text_lt(name_key(x), name_key(t[j - 1])));
            lemma_text_lt_asymmetric(name_key(x), name_key(t[j - 1]));
        } else {
            assert(u[i] == t[i - 1] && u[j] == t[j - 1]);
        }
    }
}

/// Law: the label sort puts labels in name order.
pub proof fn law_sort_by_name_is_sorted(s: Seq<LabelSummary>)
    ensures
        sorted_by_name(sort_by_name(s)),
    decreases s.len(),
{
    if s.len() > 0 {
        law_sort_by_name_is_sorted(s.drop_last());
        lemma_insert_sorted(s.last(), sort_by_name(s.drop_last()));
    }
}

/// Law: the label sort keeps exactly the labels it was given (as a multiset).
pub proof fn law_sort_by_name_permutes(s: Seq<LabelSummary>)
    ensures
        sort_by_name(s).to_multiset() == s.to_multiset(),
    decreases s.len(),
{
    broadcast use vstd::seq_lib::group_to_multiset_ensures;

    if s.len() > 0 {
        law_sort_by_name_permutes(s.drop_last());
        law_sort_by_name_is_sorted(s.drop_last());
        lemma_insert_sorted(s.last(), sort_by_name(s.drop_last()));
        assert(s =~= s.drop_last().push(s.last()));
    }
}

/// Law: the label sort is stable: the labels that share a name come out in the
/// order they went in.
pub proof fn law_sort_by_name_is_stable(s: Seq<LabelSummary>, k: Seq<char>)
    ensures
        sort_by_name(s).filter(has_name(k)) == s.filter(has_name(k)),
    decreases s.len(),
{
    if s.len() > 0 {
        let d = s.drop_last();
        let x = s.last();
        let t = sort_by_name(d);
        let hk = has_name(k);
        law_sort_by_name_is_stable(d, k);
        law_sort_by_name_is_sorted(d);
        lemma_insert_sorted(x, t);
        let pos = insert_position(x, t);
        let a = t.subrange(0, pos);
        let b = t.subrange(pos, t.len() as int);
        assert(t =~= a + b);
        assert(insert_by_name(x, t) =~= a + seq![x] + b);
        Seq::filter_distributes_over_add(a, b, hk);
        Seq::filter_distributes_over_add(a + seq![x], b, hk);
        Seq::filter_distributes_over_add(a, seq![x], hk);
        assert(s =~= d.push(x));
        d.lemma_filter_push(x, hk);
        reveal_with_fuel(Seq::<_>::filter, 2);
        if name_key(x) == k {
            assert(b.filter(hk) =~= Seq::<LabelSummary>::empty()) by {
                assert forall|j: int| 0 <= j < b.len() implies !hk(#[trigger] b[j]) by {
                    assert(b[j] == t[pos + j]);
                    assert(text_lt(name_key(x), name_key(t[pos + j])));
                    crate::text::lemma_text_lt_irreflexive(name_key(x));
                }
                lemma_filter_none(b, hk);
            }
            assert(seq![x].filter(hk) =~= seq![x]);
        } else {
            assert(seq![x].filter(hk) =~= Seq::<LabelSummary>::empty());
        }
    }
}

/// Filtering a sequence where nothing satisfies the predicate gives nothing.
proof fn lemma_filter_none(b: Seq<LabelSummary>, p: spec_fn(LabelSummary) -> bool)
    requires
        forall|j: int| 0 <= j < b.len() ==> !p(#[trigger] b[j]),
    ensures
        b.filter(p) =~= Seq::<LabelSummary>::empty(),
    decreases b.len(),
{
    reveal_with_fuel(Seq::<_>::filter, 1);
    if b.len() > 0 {
        lemma_filter_none(b.drop_last(), p);
    }
}


/// A label is in the sorted sequence exactly when it is in the unsorted one.
proof fn lemma_sort_contains(s: Seq<LabelSummary>, x: LabelSummary)
    ensures
        sort_by_name(s).contains(x) == s.contains(x),
{
    law_sort_by_name_permutes(s);
    vstd::seq_lib::to_multiset_contains(s, x);
    vstd::seq_lib::to_multiset_contains(sort_by_name(s), x);
}

/// Every group is shown in the blocks of its groups.
proof fn lemma_blocks_contain_group(ls: Seq<LabelSummary>, gs: Seq<LabelSummary>, k: int)
    requires
        0 <= k < gs.len(),
    ensures
        group_blocks(ls, gs).contains(gs[k]),
    decreases gs.len(),
{
    let last = group_block(ls, gs.last());
    if k == gs.len() - 1 {
        assert(last[0] == gs[k]);
        assert((group_blocks(ls, gs.drop_last()) + last)[group_blocks(ls, gs.drop_last()).len() as int]
            == gs[k]);
    } else {
        lemma_blocks_contain_group(ls, gs.drop_last(), k);
        let prev = group_blocks(ls, gs.drop_last());
        let j = choose|j: int| 0 <= j < prev.len() && prev[j] == gs.drop_last()[k];
        assert((prev + last)[j] == gs[k]);
    }
}

/// Every child of a group is shown in the blocks of its groups.
proof fn lemma_blocks_contain_child(ls: Seq<LabelSummary>, gs: Seq<LabelSummary>, k: int, c: LabelSummary)
    requires
        0 <= k < gs.len(),
        ls.filter(parent_name_is(name_key(gs[k]))).contains(c),
    ensures
        group_blocks(ls, gs).contains(c),
    decreases gs.len(),
{
    let last = group_block(ls, gs.last());
    let prev = group_blocks(ls, gs.drop_last());
    if k == gs.len() - 1 {
        let kids = sort_by_name(ls.filter(parent_name_is(name_key(gs[k]))));
        lemma_sort_contains(ls.filter(parent_name_is(name_key(gs[k]))), c);
        let j = choose|j: int| 0 <= j < kids.len() && kids[j] == c;
        assert(last[j + 1] == c);
        assert((prev + last)[prev.len() + j + 1] == c);
    } else {
        assert(gs.drop_last()[k] == gs[k]);
        lemma_blocks_contain_child(ls, gs.drop_last(), k, c);
        let j = choose|j: int| 0 <= j < prev.len() && prev[j] == c;
        assert((prev + last)[j] == c);
    }
}

/// What the blocks show is a group, or a child of a group, taken from the labels.
proof fn lemma_blocks_members(ls: Seq<LabelSummary>, gs: Seq<LabelSummary>, y: LabelSummary)
    requires
        group_blocks(ls, gs).contains(y),
    ensures
        gs.contains(y) || exists|k: int|
            0 <= k < gs.len() && ls.contains(y) && #[trigger] parent_name_is(name_key(gs[k]))(y),
    decreases gs.len(),
{
    let last = group_block(ls, gs.last());
    let prev = group_blocks(ls, gs.drop_last());
    let j = choose|j: int| 0 <= j < (prev + last).len() && (prev + last)[j] == y;
    if j < prev.len() {
        assert(prev[j] == y);
        lemma_blocks_members(ls, gs.drop_last(), y);
        if gs.drop_last().contains(y) {
            let m = choose|m: int| 0 <= m < gs.drop_last().len() && gs.drop_last()[m] == y;
            assert(gs[m] == y);
        } else {
            let k = choose|k: int|
                0 <= k < gs.drop_last().len() && ls.contains(y) && #[trigger] parent_name_is(
                    name_key(gs.drop_last()[k]),
                )(y);
            assert(gs.drop_last()[k] == gs[k]);
        }
    } else {
        let jj = j - prev.len();
        if jj == 0 {
            assert(last[0] == gs.last());
            assert(gs[gs.len() - 1] == y);
        } else {
            let pk = parent_name_is(name_key(gs.last()));
            let kids = sort_by_name(ls.filter(pk));
            assert(kids[jj - 1] == y);
            lemma_sort_contains(ls.filter(pk), y);
            ls.lemma_filter_contains_rev(pk, y);
            let m = choose|m: int| 0 <= m < ls.filter(pk).len() && ls.filter(pk)[m] == y;
            ls.lemma_filter_pred(pk, m);
            assert(pk(y));
            assert(gs[gs.len() - 1] == gs.last());
        }
    }
}

/// Labels whose ids are all present and all different.
pub open spec fn distinct_ids(ls: Seq<LabelSummary>) -> bool {
    &&& forall|j: int| 0 <= j < ls.len() ==> (#[trigger] ls[j]).id is Some
    &&& forall|j: int, k: int| 0 <= j < ls.len() && 0 <= k < ls.len() && j != k ==> id_key(#[trigger] ls[j]) != id_key(#[trigger] ls[k])
}

/// Law: when every label has an id of its own, the label table shows every label.
pub proof fn law_label_order_shows_every_label(ls: Seq<LabelSummary>, i: int)
    requires
        0 <= i < ls.len(),
        distinct_ids(ls),
    ensures
        label_order(ls).contains(ls[i]),
{
    let gp = is_group_label();
    let gs = ls.filter(gp);
    let x = ls[i];
    let g_all = grouped(ls);
    if gp(x) {
        ls.lemma_filter_contains(gp, i);
        let k = choose|k: int| 0 <= k < gs.len() && gs[k] == x;
        lemma_blocks_contain_group(ls, gs, k);
        let j = choose|j: int| 0 <= j < g_all.len() && g_all[j] == x;
        assert(label_order(ls)[j] == x);
    } else if exists|k: int| 0 <= k < gs.len() && #[trigger] parent_name_is(name_key(gs[k]))(x) {
        let k = choose|k: int| 0 <= k < gs.len() && #[trigger] parent_name_is(name_key(gs[k]))(x);
        ls.lemma_filter_contains(parent_name_is(name_key(gs[k])), i);
        lemma_blocks_contain_child(ls, gs, k, x);
        let j = choose|j: int| 0 <= j < g_all.len() && g_all[j] == x;
        assert(label_order(ls)[j] == x);
    } else {
        let used = id_keys(g_all);
        assert(!used.contains(id_key(x))) by {
            if used.contains(id_key(x)) {
                let j = choose|j: int| 0 <= j < used.len() && used[j] == id_key(x);
                let y = g_all[j];
                assert(id_key(y) == id_key(x));
                assert(g_all.contains(y));
                lemma_blocks_members(ls, gs, y);
                if gs.contains(y) {
                    ls.lemma_filter_contains_rev(gp, y);
                    let m = choose|m: int| 0 <= m < gs.len() && gs[m] == y;
                    ls.lemma_filter_pred(gp, m);
                    let a = choose|a: int| 0 <= a < ls.len() && ls[a] == y;
                    assert(a == i);
                } else {
                    let k = choose|k: int|
                        0 <= k < gs.len() && ls.contains(y) && #[trigger] parent_name_is(name_key(gs[k]))(y);
                    let a = choose|a: int| 0 <= a < ls.len() && ls[a] == y;
                    assert(a == i);
                }
            }
        }
        let np = not_used(used);
        ls.lemma_filter_contains(np, i);
        lemma_sort_contains(ls.filter(np), x);
        let rest = ungrouped(ls);
        let j = choose|j: int| 0 <= j < rest.len() && rest[j] == x;
        assert(label_order(ls)[g_all.len() + j] == x);
    }
}


/// The `labels` command.
pub struct LabelsCmd {
    pub action: LabelsAction,
}

/// What the `labels` command does.
pub enum LabelsAction {
    /// List labels, optionally of a team.
    List { team: Option<String> },
    /// Create a label, optionally as a group or inside a group.
    Create {
        name: String,
        team: Option<String>,
        color: Option<String>,
        description: Option<String>,
        parent_label_group: Option<String>,
        make_label_group: bool,
    },
    /// Change a label.
    Update {
        id: String,
        name: Option<String>,
        color: Option<String>,
        description: Option<String>,
        parent_label_group: Option<String>,
        clear_parent_label_group: bool,
        make_label_group: bool,
        clear_label_group: bool,
    },
    /// Delete a label.
    Delete { id: String },
}

/// A field of a create or update input: left out, set to null, or set to a value.
#[derive(PartialEq, Eq, Structural, Clone, Copy, Debug)]
pub enum FieldUpdate<T> {
    Undefined,
    Null,
    Value(T),
}

/// An optional value as a field: absent values are left out.
pub open spec fn field_of<T>(o: Option<T>) -> FieldUpdate<T> {
    match o {
        Some(v) => FieldUpdate::Value(v),
        None => FieldUpdate::Undefined,
    }
}

/// An optional value as a field.
pub fn field_from<T>(o: Option<T>) -> (r: FieldUpdate<T>)
    ensures
        r == field_of(o),
{
    match o {
        Some(v) => FieldUpdate::Value(v),
        None => FieldUpdate::Undefined,
    }
}

/// The fields of a label to create.
pub struct LabelCreateInput {
    pub name: String,
    pub color: FieldUpdate<String>,
    pub description: FieldUpdate<String>,
    pub parent_id: FieldUpdate<String>,
    pub team_id: FieldUpdate<String>,
    pub is_group: FieldUpdate<bool>,
}

/// The input of a label to create: given values are set, others left out; a group
/// is marked only when asked for.
pub fn label_create_input(
    name: String,
    team_id: Option<String>,
    color: Option<String>,
    description: Option<String>,
    parent_label_group: Option<String>,
    make_label_group: bool,
) -> (r: LabelCreateInput)
    ensures
        r.name == name,
        r.color == field_of(color),
        r.description == field_of(description),
        r.parent_id == field_of(parent_label_group),
        r.team_id == field_of(team_id),
        r.is_group == (if make_label_group { FieldUpdate::Value(true) } else { FieldUpdate::Undefined }),
{
    LabelCreateInput {
        name,
        color: field_from(color),
        description: field_from(description),
        parent_id: field_from(parent_label_group),
        team_id: field_from(team_id),
        is_group: if make_label_group {
            FieldUpdate::Value(true)
        } else {
            FieldUpdate::Undefined
        },
    }
}

/// The fields of a label update.
pub struct LabelUpdateInput {
    pub name: FieldUpdate<String>,
    pub color: FieldUpdate<String>,
    pub description: FieldUpdate<String>,
    pub parent_id: FieldUpdate<String>,
    pub is_group: FieldUpdate<bool>,
}

/// Whether a label update sets nothing.
pub open spec fn label_update_is_empty(
    name: Option<String>,
    color: Option<String>,
    description: Option<String>,
    parent_label_group: Option<String>,
    clear_parent_label_group: bool,
    make_label_group: bool,
    clear_label_group: bool,
) -> bool {
    name is None && color is None && description is None && parent_label_group is None
        && !clear_parent_label_group && !make_label_group && !clear_label_group
}

/// The input of a label update: refused when it sets nothing; `--clear-parent-label-group`
/// sends a null parent; `--make-label-group` marks a group, `--clear-label-group`
/// unmarks it; other given values are set.
pub fn label_update_input(
    name: Option<String>,
    color: Option<String>,
    description: Option<String>,
    parent_label_group: Option<String>,
    clear_parent_label_group: bool,
    make_label_group: bool,
    clear_label_group: bool,
) -> (r: Result<LabelUpdateInput, String>)
    ensures
        label_update_is_empty(name, color, description, parent_label_group, clear_parent_label_group,
            make_label_group, clear_label_group) ==> (r matches Err(e) && e@
            == "No update fields provided. Use --name, --color, --description, --parent-label-group, --clear-parent-label-group, --make-label-group, or --clear-label-group."@),
        !label_update_is_empty(name, color, description, parent_label_group, clear_parent_label_group,
            make_label_group, clear_label_group) ==> (r matches Ok(u) && u.name == field_of(name)
            && u.color == field_of(color) && u.description == field_of(description) && u.parent_id == (
        if clear_parent_label_group {
            FieldUpdate::Null
        } else {
            field_of(parent_label_group)
        }) && u.is_group == (if make_label_group {
            FieldUpdate::Value(true)
        } else if clear_label_group {
            FieldUpdate::Value(false)
        } else {
            FieldUpdate::Undefined
        })),
{
    if name.is_none() && color.is_none() && description.is_none() && parent_label_group.is_none()
        && !clear_parent_label_group && !make_label_group && !clear_label_group {
        return Err(
            String::from_str(
                "No update fields provided. Use --name, --color, --description, --parent-label-group, --clear-parent-label-group, --make-label-group, or --clear-label-group.",
            ),
        );
    }
    let is_group = if make_label_group {
        FieldUpdate::Value(true)
    } else if clear_label_group {
        FieldUpdate::Value(false)
    } else {
        FieldUpdate::Undefined
    };
    let parent_id = if clear_parent_label_group {
        FieldUpdate::Null
    } else {
        field_from(parent_label_group)
    };
    Ok(
        LabelUpdateInput {
            name: field_from(name),
            color: field_from(color),
            description: field_from(description),
            parent_id,
            is_group,
        },
    )
}

} // verus!
