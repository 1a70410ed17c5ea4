//! Turning a pile of changes into something worth saying out loud: one
//! sentence per package transaction, and nothing for routine ones.
use crate::sentinel::change::{Change, ChangeKind, Severity, classify_spec, is_peak, worst};
use crate::clock::{
    clock_accepts, day_of_month_near, in_clock_range, local_day_of_month, month_near, utc_day, weekday_near, local_days_ago, local_month_name, local_weekday_name, month_names, weekday_names,
};
use crate::text::{
    free_of, has_prefix, has_sub, is_mark, lemma_free_of_concat, lemma_has_sub_left, lemma_has_sub_right,
    lemma_has_sub_self, lemma_has_sub_trans, lemma_join_naturally_has, lemma_plain_free_of, plain, plain_char, char_vecs_view, chars_of, decimal, join_chars, join_naturally_spec, keep_some, push_chars,
    push_decimal, push_str, string_of,
};
use vstd::prelude::*;

verus! {

/// Log entries this far apart (in seconds) belong to different transactions.
pub const TRANSACTION_GAP_SECS: i64 = 300;

// ---------------------------------------------------------------------
// Copying changes
// ---------------------------------------------------------------------

pub fn copy_kind(k: &ChangeKind) -> (r: ChangeKind)
    ensures
        r == *k,
{
    match k {
        ChangeKind::PackageInstalled { name, version, requested } => ChangeKind::PackageInstalled {
            name: name.clone(),
            version: version.clone(),
            requested: *requested,
        },
        ChangeKind::PackageRemoved { name, version } => ChangeKind::PackageRemoved {
            name: name.clone(),
            version: version.clone(),
        },
        ChangeKind::PackageUpgraded { name, from, to } => ChangeKind::PackageUpgraded {
            name: name.clone(),
            from: from.clone(),
            to: to.clone(),
        },
        ChangeKind::PackageDowngraded { name, from, to } => ChangeKind::PackageDowngraded {
            name: name.clone(),
            from: from.clone(),
            to: to.clone(),
        },
    }
}

pub fn copy_change(c: &Change) -> (r: Change)
    ensures
        r == *c,
{
    Change {
        kind: copy_kind(&c.kind),
        severity: c.severity,
        source: c.source.clone(),
        occurred_at: c.occurred_at,
        detail: c.detail.clone(),
    }
}

// ---------------------------------------------------------------------
// Ordering changes
// ---------------------------------------------------------------------

/// Lexicographic order of texts by character code, which is also the byte
/// order of their UTF-8 encodings.
pub open spec fn text_lt(a: Seq<char>, b: Seq<char>) -> bool
    decreases a.len(),
{
    if a.len() == 0 {
        b.len() > 0
    } else if b.len() == 0 {
        false
    } else if a[0] != b[0] {
        (a[0] as u32) < (b[0] as u32)
    } else {
        text_lt(a.drop_first(), b.drop_first())
    }
}

fn text_less(a: &[char], b: &[char]) -> (r: bool)
    ensures
        r == text_lt(a@, b@),
{
    let mut i: usize = 0;
    assert(a@.skip(0) =~= a@);
    assert(b@.skip(0) =~= b@);
    while i < a.len() && i < b.len() && a[i] == b[i]
        invariant
            i <= a.len(),
            i <= b.len(),
            text_lt(a@, b@) == text_lt(a@.skip(i as int), b@.skip(i as int)),
        decreases a.len() - i,
    {
        assert(a@.skip(i as int).drop_first() =~= a@.skip(i + 1));
        assert(b@.skip(i as int).drop_first() =~= b@.skip(i + 1));
        i = i + 1;
    }
    if i == a.len() {
        i < b.len()
    } else if i == b.len() {
        false
    } else {
        (a[i] as u32) < (b[i] as u32)
    }
}

/// Strict order of changes by source, then by time.
pub open spec fn source_time_lt(a: Change, b: Change) -> bool {
    text_lt(a.source@, b.source@) || (a.source@ == b.source@ && a.occurred_at < b.occurred_at)
}

/// Strict order of changes by time alone.
pub open spec fn time_lt(a: Change, b: Change) -> bool {
    a.occurred_at < b.occurred_at
}

/// Where a stable insertion puts `x`: before the first element it precedes.
pub open spec fn insert_pos(s: Seq<Change>, x: Change, by_source: bool) -> int
    decreases s.len(),
{
    if s.len() == 0 {
        0
    } else {
        let prev = insert_pos(s.drop_last(), x, by_source);
        if prev < s.len() - 1 {
            prev
        } else if (if by_source { source_time_lt(x, s.last()) } else { time_lt(x, s.last()) }) {
            s.len() - 1
        } else {
            s.len() as int
        }
    }
}

/// A stable sort: each element in turn inserted after everything it does
/// not precede. `by_source` orders by source then time, else by time.
pub open spec fn sorted_spec(s: Seq<Change>, by_source: bool) -> Seq<Change>
    decreases s.len(),
{
    if s.len() == 0 {
        Seq::empty()
    } else {
        let prev = sorted_spec(s.drop_last(), by_source);
        prev.insert(insert_pos(prev, s.last(), by_source), s.last())
    }
}

proof fn lemma_insert_pos_bounds(s: Seq<Change>, x: Change, b: bool)
    ensures
        0 <= insert_pos(s, x, b) <= s.len(),
    decreases s.len(),
{
    if s.len() > 0 {
        lemma_insert_pos_bounds(s.drop_last(), x, b);
    }
}

fn precedes(x: &Change, y: &Change, by_source: bool) -> (r: bool)
    ensures
        r == (if by_source { source_time_lt(*x, *y) } else { time_lt(*x, *y) }),
{
    if by_source {
        let a = chars_of(x.source.as_str());
        let b = chars_of(y.source.as_str());
        if text_less(&a, &b) {
            return true;
        }
        if crate::text::same(&a, &b) {
            x.occurred_at < y.occurred_at
        } else {
            false
        }
    } else {
        x.occurred_at < y.occurred_at
    }
}

proof fn lemma_insert_pos_stays(s: Seq<Change>, x: Change, b: bool, i: int, j: int)
    requires
        0 <= i < j <= s.len(),
        insert_pos(s.take(i + 1), x, b) == i,
    ensures
        insert_pos(s.take(j), x, b) == i,
    decreases j,
{
    if j > i + 1 {
        lemma_insert_pos_stays(s, x, b, i, j - 1);
        assert(s.take(j).drop_last() =~= s.take(j - 1));
    }
}

fn find_insert_pos(s: &Vec<Change>, x: &Change, by_source: bool) -> (p: usize)
    ensures
        p as int == insert_pos(s@, *x, by_source),
{
    let mut i: usize = 0;
    while i < s.len() && !precedes(x, &s[i], by_source)
        invariant
            i <= s.len(),
            insert_pos(s@.take(i as int), *x, by_source) == i,
        decreases s.len() - i,
    {
        assert(s@.take(i + 1).drop_last() =~= s@.take(i as int));
        i = i + 1;
    }
    if i < s.len() {
        assert(s@.take(i + 1).drop_last() =~= s@.take(i as int));
        proof {
            lemma_insert_pos_stays(s@, *x, by_source, i as int, s.len() as int);
        }
    }
    assert(s@.take(s.len() as int) =~= s@);
    i
}

/// `changes` in a stable order: by source then time, or by time alone.
pub fn sort_changes(changes: &[Change], by_source: bool) -> (r: Vec<Change>)
    ensures
        r@ == sorted_spec(changes@, by_source),
{
    let mut out: Vec<Change> = Vec::new();
    let mut i: usize = 0;
    while i < changes.len()
        invariant
            i <= changes.len(),
            out@ == sorted_spec(changes@.take(i as int), by_source),
        decreases changes.len() - i,
    {
        assert(changes@.take(i + 1).drop_last() =~= changes@.take(i as int));
        let c = copy_change(&changes[i]);
        let p = find_insert_pos(&out, &c, by_source);
        proof {
            lemma_insert_pos_bounds(out@, c, by_source);
        }
        out.insert(p, c);
        i = i + 1;
    }
    assert(changes@.take(changes.len() as int) =~= changes@);
    out
}

proof fn lemma_sorted_len(s: Seq<Change>, b: bool)
    ensures
        sorted_spec(s, b).len() == s.len(),
    decreases s.len(),
{
    if s.len() > 0 {
        lemma_sorted_len(s.drop_last(), b);
        lemma_insert_pos_bounds(sorted_spec(s.drop_last(), b), s.last(), b);
    }
}

/// Sorting neither loses nor invents changes: same length, and every
/// change in the input is in the output and the other way round.
pub proof fn law_sort_keeps_changes(s: Seq<Change>, b: bool)
    ensures
        sorted_spec(s, b).len() == s.len(),
        forall|x: Change| s.contains(x) <==> #[trigger] sorted_spec(s, b).contains(x),
    decreases s.len(),
{
    lemma_sorted_len(s, b);
    if s.len() > 0 {
        let prev = sorted_spec(s.drop_last(), b);
        law_sort_keeps_changes(s.drop_last(), b);
        let p = insert_pos(prev, s.last(), b);
        lemma_insert_pos_bounds(prev, s.last(), b);
        let t = prev.insert(p, s.last());
        assert forall|x: Change| s.contains(x) <==> #[trigger] t.contains(x) by {
            if s.contains(x) {
                let k = choose|k: int| 0 <= k < s.len() && s[k] == x;
                if k == s.len() - 1 {
                    assert(t[p] == x);
                } else {
                    assert(s.drop_last()[k] == x);
                    assert(prev.contains(x));
                    let m = choose|m: int| 0 <= m < prev.len() && prev[m] == x;
                    if m < p {
                        assert(t[m] == x);
                    } else {
                        assert(t[m + 1] == x);
                    }
                }
            }
            if t.contains(x) {
                let m = choose|m: int| 0 <= m < t.len() && t[m] == x;
                if m == p {
                    assert(s[s.len() - 1] == x);
                } else if m < p {
                    assert(prev[m] == x);
                    assert(prev.contains(x));
                    assert(s.drop_last().contains(x));
                    let k = choose|k: int| 0 <= k < s.len() - 1 && s.drop_last()[k] == x;
                    assert(s[k] == x);
                } else {
                    assert(prev[m - 1] == x);
                    assert(prev.contains(x));
                    assert(s.drop_last().contains(x));
                    let k = choose|k: int| 0 <= k < s.len() - 1 && s.drop_last()[k] == x;
                    assert(s[k] == x);
                }
            }
        }
    }
}

/// Sorting permutes: the sorted changes are the input's, each as many
/// times as it occurs there.
pub proof fn law_sort_permutes(s: Seq<Change>, b: bool)
    ensures
        sorted_spec(s, b).to_multiset() == s.to_multiset(),
    decreases s.len(),
{
    if s.len() > 0 {
        let d = s.drop_last();
        law_sort_permutes(d, b);
        let prev = sorted_spec(d, b);
        lemma_insert_pos_bounds(prev, s.last(), b);
        vstd::seq_lib::to_multiset_insert(prev, insert_pos(prev, s.last(), b), s.last());
        vstd::seq_lib::to_multiset_build(d, s.last());
        assert(d.push(s.last()) =~= s);
        assert(sorted_spec(s, b) == prev.insert(insert_pos(prev, s.last(), b), s.last()));
        assert(sorted_spec(s, b).to_multiset() == prev.to_multiset().insert(s.last()));
        assert(s.to_multiset() == d.to_multiset().insert(s.last()));
    } else {
        assert(s =~= Seq::<Change>::empty());
        assert(sorted_spec(s, b) =~= Seq::<Change>::empty());
    }
}

pub open spec fn before(x: Change, y: Change, by_source: bool) -> bool {
    if by_source {
        source_time_lt(x, y)
    } else {
        time_lt(x, y)
    }
}

proof fn lemma_text_lt_irreflexive(a: Seq<char>)
    ensures
        !text_lt(a, a),
    decreases a.len(),
{
    if a.len() > 0 {
        lemma_text_lt_irreflexive(a.drop_first());
    }
}

proof fn lemma_text_lt_trans(a: Seq<char>, b: Seq<char>, c: Seq<char>)
    requires
        text_lt(a, b),
        text_lt(b, c),
    ensures
        text_lt(a, c),
    decreases a.len(),
{
    if a.len() > 0 && b.len() > 0 && c.len() > 0 && a[0] == b[0] && b[0] == c[0] {
        lemma_text_lt_trans(a.drop_first(), b.drop_first(), c.drop_first());
    }
}

proof fn lemma_before_order(x: Change, y: Change, z: Change, b: bool)
    ensures
        !before(x, x, b),
        before(x, y, b) && before(y, z, b) ==> before(x, z, b),
{
    lemma_text_lt_irreflexive(x.source@);
    if before(x, y, b) && before(y, z, b) && b {
        if text_lt(x.source@, y.source@) && text_lt(y.source@, z.source@) {
            lemma_text_lt_trans(x.source@, y.source@, z.source@);
        }
    }
}

proof fn lemma_insert_pos_splits(s: Seq<Change>, x: Change, b: bool)
    ensures
        forall|k: int| 0 <= k < insert_pos(s, x, b) ==> !before(x, #[trigger] s[k], b),
        insert_pos(s, x, b) < s.len() ==> before(x, s[insert_pos(s, x, b)], b),
    decreases s.len(),
{
    if s.len() > 0 {
        let d = s.drop_last();
        lemma_insert_pos_splits(d, x, b);
        lemma_insert_pos_bounds(d, x, b);
        assert forall|k: int| 0 <= k < insert_pos(s, x, b) implies !before(x, #[trigger] s[k], b) by {
            if k < d.len() {
                assert(s[k] == d[k]);
            }
        }
        if insert_pos(s, x, b) < d.len() {
            assert(s[insert_pos(s, x, b)] == d[insert_pos(s, x, b)]);
        }
    }
}

/// Sorting orders the changes: no change comes after one it should precede
/// (oldest first, and by source first when asked), so a sentence reads in
/// the order things happened.
pub proof fn law_sort_orders(s: Seq<Change>, b: bool)
    ensures
        forall|i: int, j: int|
            0 <= i < j < sorted_spec(s, b).len() ==> !before(#[trigger] sorted_spec(s, b)[j], #[trigger] sorted_spec(s, b)[i], b),
    decreases s.len(),
{
    if s.len() > 0 {
        let prev = sorted_spec(s.drop_last(), b);
        law_sort_orders(s.drop_last(), b);
        let x = s.last();
        let p = insert_pos(prev, x, b);
        lemma_insert_pos_bounds(prev, x, b);
        lemma_insert_pos_splits(prev, x, b);
        let t = prev.insert(p, x);
        assert(t == sorted_spec(s, b));
        assert forall|i: int, j: int| 0 <= i < j < t.len() implies !before(#[trigger] t[j], #[trigger] t[i], b) by {
            if j < p {
                assert(t[i] == prev[i] && t[j] == prev[j]);
            } else if i > p {
                assert(t[i] == prev[i - 1] && t[j] == prev[j - 1]);
            } else if i < p && j > p {
                assert(t[i] == prev[i] && t[j] == prev[j - 1]);
            } else if j == p {
                assert(t[i] == prev[i] && t[j] == x);
            } else {
                assert(i == p && j > p);
                assert(t[i] == x && t[j] == prev[j - 1]);
                lemma_before_order(prev[j - 1], x, prev[p], b);
                if j - 1 > p {
                    assert(!before(prev[j - 1], prev[p], b));
                }
            }
        }
    }
}

// ---------------------------------------------------------------------
// Grouping into transactions
// ---------------------------------------------------------------------

/// Whether `c` continues the transaction that `last` is in: same source,
/// at most `gap` seconds apart.
pub open spec fn continues(last: Change, c: Change, gap: i64) -> bool {
    &&& last.source@ == c.source@
    &&& -gap <= c.occurred_at - last.occurred_at <= gap
}

/// Groups of the first `n` changes of `s`, each change joining the group
/// before it when it continues that group's last change.
pub open spec fn group_scan(s: Seq<Change>, gap: i64, n: int) -> Seq<Seq<Change>>
    decreases n,
{
    if n <= 0 {
        Seq::empty()
    } else {
        let gs = group_scan(s, gap, n - 1);
        let c = s[n - 1];
        if gs.len() > 0 && gs.last().len() > 0 && continues(gs.last().last(), c, gap) {
            gs.update(gs.len() - 1, gs.last().push(c))
        } else {
            gs.push(seq![c])
        }
    }
}

/// The transactions in a batch: sorted by source and time, then split
/// wherever the source changes or more than `gap` seconds pass.
pub open spec fn groups_spec(changes: Seq<Change>, gap: i64) -> Seq<Seq<Change>> {
    let s = sorted_spec(changes, true);
    group_scan(s, gap, s.len() as int)
}

pub open spec fn groups_view(g: Seq<Vec<Change>>) -> Seq<Seq<Change>> {
    g.map_values(|v: Vec<Change>| v@)
}

proof fn lemma_group_scan_nonempty(s: Seq<Change>, gap: i64, n: int)
    requires
        0 <= n <= s.len(),
    ensures
        forall|k: int|
            0 <= k < group_scan(s, gap, n).len() ==> #[trigger] group_scan(s, gap, n)[k].len() > 0,
    decreases n,
{
    if n > 0 {
        lemma_group_scan_nonempty(s, gap, n - 1);
        let gs = group_scan(s, gap, n - 1);
        let c = s[n - 1];
        if gs.len() > 0 && gs.last().len() > 0 && continues(gs.last().last(), c, gap) {
            let ng = gs.update(gs.len() - 1, gs.last().push(c));
            assert forall|k: int| 0 <= k < ng.len() implies #[trigger] ng[k].len() > 0 by {
                if k < gs.len() - 1 {
                    assert(ng[k] == gs[k]);
                }
            }
        } else {
            let ng = gs.push(seq![c]);
            assert forall|k: int| 0 <= k < ng.len() implies #[trigger] ng[k].len() > 0 by {
                if k < gs.len() {
                    assert(ng[k] == gs[k]);
                }
            }
        }
    }
}

/// Group changes into the transactions that produced them. Input need not
/// be sorted; grouping is by source as well as time, so two package
/// managers on one machine never merge.
pub fn group_transactions(changes: &[Change], gap_secs: i64) -> (r: Vec<Vec<Change>>)
    ensures
        groups_view(r@) == groups_spec(changes@, gap_secs),
{
    let sorted = sort_changes(changes, true);
    let mut groups: Vec<Vec<Change>> = Vec::new();
    let mut i: usize = 0;
    while i < sorted.len()
        invariant
            i <= sorted.len(),
            groups_view(groups@) == group_scan(sorted@, gap_secs, i as int),
        decreases sorted.len() - i,
    {
        proof {
            lemma_group_scan_nonempty(sorted@, gap_secs, i as int);
        }
        let c = copy_change(&sorted[i]);
        let ghost gs = groups_view(groups@);
        let n = groups.len();
        let fits = if n > 0 && groups[n - 1].len() > 0 {
            let g = &groups[n - 1];
            let last = &g[g.len() - 1];
            let same_source = crate::text::same(
                &chars_of(last.source.as_str()),
                &chars_of(c.source.as_str()),
            );
            let d = c.occurred_at as i128 - last.occurred_at as i128;
            same_source && -(gap_secs as i128) <= d && d <= gap_secs as i128
        } else {
            false
        };
        if fits {
            let mut g = groups.pop().unwrap();
            g.push(c);
            groups.push(g);
            assert(groups_view(groups@) =~= gs.update(gs.len() - 1, gs.last().push(sorted@[i as int])));
        } else {
            let mut g: Vec<Change> = Vec::new();
            g.push(c);
            groups.push(g);
            assert(groups_view(groups@) =~= gs.push(seq![sorted@[i as int]]));
        }
        i = i + 1;
    }
    groups
}

/// Each transaction is non-empty, comes from one source, and every change
/// in it is within `gap` seconds of the one before.
pub proof fn law_groups_are_transactions(changes: Seq<Change>, gap: i64)
    ensures
        forall|k: int|
            0 <= k < groups_spec(changes, gap).len() ==> {
                let g = #[trigger] groups_spec(changes, gap)[k];
                &&& g.len() > 0
                &&& forall|m: int| 0 < m < g.len() ==> #[trigger] continues(g[m - 1], g[m], gap)
            },
{
    let s = sorted_spec(changes, true);
    lemma_sorted_len(changes, true);
    lemma_group_scan_shape(s, gap, s.len() as int);
}

proof fn lemma_group_scan_breaks(s: Seq<Change>, gap: i64, n: int)
    requires
        0 <= n <= s.len(),
    ensures
        forall|k: int|
            0 < k < group_scan(s, gap, n).len() ==> !continues(
                group_scan(s, gap, n)[k - 1].last(),
                (#[trigger] group_scan(s, gap, n)[k])[0],
                gap,
            ),
    decreases n,
{
    if n > 0 {
        lemma_group_scan_breaks(s, gap, n - 1);
        lemma_group_scan_shape(s, gap, n - 1);
        let gs = group_scan(s, gap, n - 1);
        let c = s[n - 1];
        let ng = group_scan(s, gap, n);
        if gs.len() > 0 && gs.last().len() > 0 && continues(gs.last().last(), c, gap) {
            assert forall|k: int| 0 < k < ng.len() implies !continues(ng[k - 1].last(), (#[trigger] ng[k])[0], gap) by {
                assert(gs[k][0] == ng[k][0]);
                if k - 1 < gs.len() - 1 {
                    assert(ng[k - 1] == gs[k - 1]);
                } else {
                    assert(gs[k - 1].len() > 0);
                }
            }
        } else {
            assert forall|k: int| 0 < k < ng.len() implies !continues(ng[k - 1].last(), (#[trigger] ng[k])[0], gap) by {
                if k < gs.len() {
                    assert(ng[k] == gs[k] && ng[k - 1] == gs[k - 1]);
                } else {
                    assert(ng[k] == seq![c]);
                    assert(ng[k - 1] == gs.last());
                }
            }
        }
    }
}

/// Consecutive transactions do not run together: the next one starts with
/// a change from another source, or more than `gap` seconds after the last
/// change of the one before.
pub proof fn law_groups_are_separated(changes: Seq<Change>, gap: i64)
    ensures
        forall|k: int|
            0 < k < groups_spec(changes, gap).len() ==> !continues(
                groups_spec(changes, gap)[k - 1].last(),
                (#[trigger] groups_spec(changes, gap)[k])[0],
                gap,
            ),
{
    let s = sorted_spec(changes, true);
    lemma_sorted_len(changes, true);
    lemma_group_scan_breaks(s, gap, s.len() as int);
}

proof fn lemma_group_scan_shape(s: Seq<Change>, gap: i64, n: int)
    requires
        0 <= n <= s.len(),
    ensures
        forall|k: int|
            0 <= k < group_scan(s, gap, n).len() ==> {
                let g = #[trigger] group_scan(s, gap, n)[k];
                &&& g.len() > 0
                &&& forall|m: int| 0 < m < g.len() ==> #[trigger] continues(g[m - 1], g[m], gap)
            },
    decreases n,
{
    if n > 0 {
        lemma_group_scan_shape(s, gap, n - 1);
        let gs = group_scan(s, gap, n - 1);
        let c = s[n - 1];
        if gs.len() > 0 && gs.last().len() > 0 && continues(gs.last().last(), c, gap) {
            let ng = gs.last().push(c);
            assert forall|m: int| 0 < m < ng.len() implies #[trigger] continues(ng[m - 1], ng[m], gap) by {
                if m < ng.len() - 1 {
                    assert(ng[m - 1] == gs.last()[m - 1]);
                    assert(ng[m] == gs.last()[m]);
                    assert(continues(gs[gs.len() - 1][m - 1], gs[gs.len() - 1][m], gap));
                }
            }
        }
    }
}

/// The groups hold exactly the sorted changes, in order.
pub open spec fn flatten(gs: Seq<Seq<Change>>) -> Seq<Change>
    decreases gs.len(),
{
    if gs.len() == 0 {
        Seq::empty()
    } else {
        flatten(gs.drop_last()) + gs.last()
    }
}

proof fn lemma_group_scan_flatten(s: Seq<Change>, gap: i64, n: int)
    requires
        0 <= n <= s.len(),
    ensures
        flatten(group_scan(s, gap, n)) == s.take(n),
    decreases n,
{
    if n > 0 {
        lemma_group_scan_flatten(s, gap, n - 1);
        let gs = group_scan(s, gap, n - 1);
        let c = s[n - 1];
        if gs.len() > 0 && gs.last().len() > 0 && continues(gs.last().last(), c, gap) {
            let ng = gs.update(gs.len() - 1, gs.last().push(c));
            assert(ng.drop_last() =~= gs.drop_last());
            assert(flatten(ng) =~= flatten(gs.drop_last()) + gs.last().push(c));
            assert(flatten(gs) == flatten(gs.drop_last()) + gs.last());
            assert(s.take(n) =~= s.take(n - 1).push(c));
        } else {
            let ng = gs.push(seq![c]);
            assert(ng.drop_last() =~= gs);
            assert(s.take(n) =~= s.take(n - 1).push(c));
        }
    }
}

/// Grouping loses nothing and reorders nothing beyond the sort: laid end
/// to end, the transactions are the changes sorted by source and time.
pub proof fn law_groups_cover_changes(changes: Seq<Change>, gap: i64)
    ensures
        flatten(groups_spec(changes, gap)) == sorted_spec(changes, true),
{
    let s = sorted_spec(changes, true);
    lemma_group_scan_flatten(s, gap, s.len() as int);
    assert(s.take(s.len() as int) =~= s);
}


// ---------------------------------------------------------------------
// Sentences
// ---------------------------------------------------------------------

pub open spec fn pulled_in_name(c: Change) -> Option<Seq<char>> {
    match c.kind {
        ChangeKind::PackageInstalled { name, requested, .. } => if requested {
            None
        } else {
            Some(name@)
        },
        _ => None,
    }
}

pub open spec fn removed_name(c: Change) -> Option<Seq<char>> {
    match c.kind {
        ChangeKind::PackageRemoved { name, .. } => Some(name@),
        _ => None,
    }
}

pub open spec fn downgraded_name(c: Change) -> Option<Seq<char>> {
    match c.kind {
        ChangeKind::PackageDowngraded { name, .. } => Some(name@),
        _ => None,
    }
}

/// Names picked out of the changes by `f`, in order.
pub open spec fn names_by(s: Seq<Change>, f: spec_fn(Change) -> Option<Seq<char>>) -> Seq<Seq<char>> {
    keep_some(s.map_values(f))
}

/// One clause: the single name with `one_a` before it and `one_b` after,
/// or the count with `many_a` before and `many_b` plus the names after.
pub open spec fn clause(names: Seq<Seq<char>>, one_a: Seq<char>, one_b: Seq<char>, many_a: Seq<char>, many_b: Seq<char>) -> Seq<char> {
    if names.len() == 1 {
        one_a + names[0] + one_b
    } else {
        many_a + decimal(names.len()) + many_b + join_naturally_spec(names)
    }
}

/// The clauses of a transaction's sentence: what it pulled in, removed and
/// put back, each only when there is something to say.
pub open spec fn clauses(g: Seq<Change>) -> Seq<Seq<char>> {
    let s = sorted_spec(g, false);
    let pulled = names_by(s, |c: Change| pulled_in_name(c));
    let removed = names_by(s, |c: Change| removed_name(c));
    let down = names_by(s, |c: Change| downgraded_name(c));
    (if pulled.len() > 0 {
        seq![clause(pulled, "pulled in "@, ", which you didn't ask for"@, "pulled in "@, " packages you didn't ask for: "@)]
    } else {
        Seq::empty()
    }) + (if removed.len() > 0 {
        seq![clause(removed, "removed "@, ""@, "removed "@, " packages: "@)]
    } else {
        Seq::empty()
    }) + (if down.len() > 0 {
        seq![clause(down, "put "@, " back to an older version"@, "put "@, " packages back to older versions: "@)]
    } else {
        Seq::empty()
    })
}

/// The sentence for one transaction, with `when` naming its day, or
/// `None` when nothing in it is worth interrupting for.
pub open spec fn sentence_spec(g: Seq<Change>, when: Seq<char>) -> Option<Seq<char>> {
    let parts = clauses(g);
    if parts.len() == 0 {
        None
    } else {
        Some("Your system update "@ + when + " "@ + join_naturally_spec(parts) + "."@)
    }
}

/// Whether a transaction holds anything worth saying: a package nobody
/// asked for, a removal, or a downgrade.
pub open spec fn notable_spec(g: Seq<Change>) -> bool {
    exists|i: int|
        0 <= i < g.len() && (#[trigger] pulled_in_name(g[i]) is Some || removed_name(g[i]) is Some
            || downgraded_name(g[i]) is Some)
}

fn pick(c: &Change, which: u8) -> (r: Option<Vec<char>>)
    ensures
        which == 0 ==> opt_chars(r) == pulled_in_name(*c),
        which == 1 ==> opt_chars(r) == removed_name(*c),
        which == 2 ==> opt_chars(r) == downgraded_name(*c),
{
    match &c.kind {
        ChangeKind::PackageInstalled { name, requested, .. } => if which == 0 && !*requested {
            Some(chars_of(name.as_str()))
        } else {
            None
        },
        ChangeKind::PackageRemoved { name, .. } => if which == 1 {
            Some(chars_of(name.as_str()))
        } else {
            None
        },
        ChangeKind::PackageDowngraded { name, .. } => if which == 2 {
            Some(chars_of(name.as_str()))
        } else {
            None
        },
        _ => None,
    }
}

pub open spec fn opt_chars(o: Option<Vec<char>>) -> Option<Seq<char>> {
    match o {
        Some(v) => Some(v@),
        None => None,
    }
}

pub open spec fn picker(which: u8) -> spec_fn(Change) -> Option<Seq<char>> {
    if which == 0 {
        |c: Change| pulled_in_name(c)
    } else if which == 1 {
        |c: Change| removed_name(c)
    } else {
        |c: Change| downgraded_name(c)
    }
}

fn collect_names(s: &Vec<Change>, which: u8) -> (r: Vec<Vec<char>>)
    requires
        which <= 2,
    ensures
        char_vecs_view(r@) == names_by(s@, picker(which)),
{
    let ghost f = picker(which);
    let ghost q = s@.map_values(f);
    let mut out: Vec<Vec<char>> = Vec::new();
    let mut i: usize = 0;
    while i < s.len()
        invariant
            which <= 2,
            f == picker(which),
            q == s@.map_values(f),
            i <= s.len(),
            char_vecs_view(out@) == keep_some(q.take(i as int)),
        decreases s.len() - i,
    {
        assert(q.take(i + 1).drop_last() =~= q.take(i as int));
        let got = pick(&s[i], which);
        assert(q[i as int] == opt_chars(got));
        let ghost prev = out@;
        match got {
            Some(n) => {
                out.push(n);
                assert(out@ =~= prev.push(n));
                assert(char_vecs_view(out@) =~= char_vecs_view(prev).push(n@));
            },
            None => {},
        }
        i = i + 1;
    }
    assert(q.take(s.len() as int) =~= q);
    out
}

fn make_clause(names: &Vec<Vec<char>>, one_a: &str, one_b: &str, many_a: &str, many_b: &str) -> (r: Vec<char>)
    requires
        names.len() > 0,
    ensures
        r@ == clause(char_vecs_view(names@), one_a@, one_b@, many_a@, many_b@),
{
    let mut v: Vec<char> = Vec::new();
    if names.len() == 1 {
        push_str(&mut v, one_a);
        push_chars(&mut v, &names[0]);
        push_str(&mut v, one_b);
    } else {
        push_str(&mut v, many_a);
        push_decimal(&mut v, names.len() as u64);
        push_str(&mut v, many_b);
        let j = join_chars(names);
        push_chars(&mut v, &j);
    }
    v
}

/// The sentence for one transaction, with `when` naming its day ("today",
/// "on Tuesday", ...), or `None` when nothing in it is worth saying.
/// Changes are read oldest first, whatever order they arrive in.
pub fn summary_sentence(group: &[Change], when: &str) -> (r: Option<String>)
    ensures
        match sentence_spec(group@, when@) {
            Some(x) => r matches Some(y) && y@ == x,
            None => r is None,
        },
{
    let s = sort_changes(group, false);
    let pulled = collect_names(&s, 0);
    let removed = collect_names(&s, 1);
    let down = collect_names(&s, 2);
    let ghost pv = char_vecs_view(pulled@);
    let ghost rv = char_vecs_view(removed@);
    let ghost dv = char_vecs_view(down@);
    assert(picker(0) == |c: Change| pulled_in_name(c));
    assert(picker(1) == |c: Change| removed_name(c));
    assert(picker(2) == |c: Change| downgraded_name(c));
    let mut parts: Vec<Vec<char>> = Vec::new();
    if pulled.len() > 0 {
        parts.push(make_clause(&pulled, "pulled in ", ", which you didn't ask for", "pulled in ", " packages you didn't ask for: "));
    }
    if removed.len() > 0 {
        parts.push(make_clause(&removed, "removed ", "", "removed ", " packages: "));
    }
    if down.len() > 0 {
        parts.push(make_clause(&down, "put ", " back to an older version", "put ", " packages back to older versions: "));
    }
    assert(char_vecs_view(parts@) =~= clauses(group@));
    if parts.len() == 0 {
        return None;
    }
    let mut v: Vec<char> = Vec::new();
    push_str(&mut v, "Your system update ");
    push_str(&mut v, when);
    push_str(&mut v, " ");
    let j = join_chars(&parts);
    push_chars(&mut v, &j);
    push_str(&mut v, ".");
    Some(string_of(&v))
}

/// How to name a day in speech: "today", "yesterday", the weekday within
/// the week, and the date further back (or for a day not yet come).
pub open spec fn day_phrase_spec(days_ago: i64, weekday: Seq<char>, day: u32, month: Seq<char>) -> Seq<char> {
    if days_ago == 0 {
        "today"@
    } else if days_ago == 1 {
        "yesterday"@
    } else if 2 <= days_ago <= 6 {
        "on "@ + weekday
    } else {
        "on "@ + decimal(day as nat) + " "@ + month
    }
}

pub fn day_phrase(days_ago: i64, weekday: &str, day: u32, month: &str) -> (r: String)
    ensures
        r@ == day_phrase_spec(days_ago, weekday@, day, month@),
{
    let mut v: Vec<char> = Vec::new();
    if days_ago == 0 {
        push_str(&mut v, "today");
    } else if days_ago == 1 {
        push_str(&mut v, "yesterday");
    } else if 2 <= days_ago && days_ago <= 6 {
        push_str(&mut v, "on ");
        push_str(&mut v, weekday);
    } else {
        push_str(&mut v, "on ");
        push_decimal(&mut v, day as u64);
        push_str(&mut v, " ");
        push_str(&mut v, month);
    }
    string_of(&v)
}

/// A day as it can be spoken: a day phrase for some count of days, some
/// English weekday, some day of the month and some English month, or "on
/// an unknown day".
pub open spec fn spoken_day(r: Seq<char>) -> bool {
    ||| r == "on an unknown day"@
    ||| exists|d: i64, w: Seq<char>, n: u32, m: Seq<char>|
        weekday_names().contains(w) && 1 <= n <= 31 && month_names().contains(m) && r == #[trigger] day_phrase_spec(
            d,
            w,
            n,
            m,
        )
}

/// The day of `when` in speech, given the clock's answers: `now`, whole
/// local days from `when`'s day to `now`'s, and `when`'s weekday, day of
/// the month and month. An instant outside the calendar's range, or a
/// missing answer, gives "on an unknown day".
pub open spec fn relative_day_spec(
    when: i64,
    now: i64,
    days_ago: Option<i64>,
    weekday: Option<Seq<char>>,
    day: Option<u32>,
    month: Option<Seq<char>>,
) -> Seq<char> {
    if !in_clock_range(when) || !in_clock_range(now) {
        "on an unknown day"@
    } else {
        match (days_ago, weekday, day, month) {
            (Some(d), Some(w), Some(n), Some(m)) => day_phrase_spec(d, w, n, m),
            _ => "on an unknown day"@,
        }
    }
}

/// The clock's answers are about `when`: its weekday, day of the month and
/// month are those of `when`'s date (each within a day of the UTC date,
/// which is all that holds in every zone), and the count of days is that
/// from `when`'s date to `now`'s.
pub open spec fn answers_about(
    when: i64,
    now: i64,
    days_ago: Option<i64>,
    weekday: Option<Seq<char>>,
    day: Option<u32>,
    month: Option<Seq<char>>,
) -> bool {
    &&& days_ago matches Some(x) ==> utc_day(now) - utc_day(when) - 2 <= x <= utc_day(now) - utc_day(when) + 2
    &&& weekday matches Some(x) ==> exists|k: int|
        0 <= k < 7 && #[trigger] weekday_names()[k] == x && weekday_near(k, when)
    &&& day matches Some(x) ==> day_of_month_near(x as int, when)
    &&& month matches Some(x) ==> exists|k: int| 0 <= k < 12 && #[trigger] month_names()[k] == x && month_near(k, when)
}

pub open spec fn opt_str_view(o: Option<&str>) -> Option<Seq<char>> {
    match o {
        Some(s) => Some(s@),
        None => None,
    }
}

pub fn relative_day_from(
    when: i64,
    now: i64,
    days_ago: Option<i64>,
    weekday: Option<&str>,
    day: Option<u32>,
    month: Option<&str>,
) -> (r: String)
    ensures
        r@ == relative_day_spec(when, now, days_ago, opt_str_view(weekday), day, opt_str_view(month)),
{
    if !clock_accepts(when) || !clock_accepts(now) {
        return string_of(&chars_of("on an unknown day"));
    }
    match (days_ago, weekday, day, month) {
        (Some(d), Some(w), Some(n), Some(m)) => day_phrase(d, w, n, m),
        _ => string_of(&chars_of("on an unknown day")),
    }
}

/// How to refer to the day of `when` in speech, by this machine's clock and
/// zone: `relative_day_from` on what the clock answers, asked only for
/// instants in the calendar's range.
pub fn relative_day(when: i64) -> (r: String)
    ensures
        spoken_day(r@),
        !in_clock_range(when) ==> r@ == "on an unknown day"@,
        exists|now: i64, d: Option<i64>, w: Option<Seq<char>>, n: Option<u32>, m: Option<Seq<char>>|
            r@ == #[trigger] relative_day_spec(when, now, d, w, n, m),
        exists|now: i64, d: Option<i64>, w: Option<Seq<char>>, n: Option<u32>, m: Option<Seq<char>>|
            r@ == #[trigger] relative_day_spec(when, now, d, w, n, m) && answers_about(when, now, d, w, n, m),
{
    let now = crate::clock::now_secs();
    let asked = clock_accepts(when) && clock_accepts(now);
    let d = if asked { local_days_ago(when, now) } else { None };
    let w = if asked { local_weekday_name(when) } else { None };
    let n = if asked { local_day_of_month(when) } else { None };
    let m = if asked { local_month_name(when) } else { None };
    let wr: Option<&str> = match &w {
        Some(x) => Some(x.as_str()),
        None => None,
    };
    let mr: Option<&str> = match &m {
        Some(x) => Some(x.as_str()),
        None => None,
    };
    let r = relative_day_from(when, now, d, wr, n, mr);
    proof {
        reveal_strlit("on an unknown day");
        if in_clock_range(when) && in_clock_range(now) {
            if let (Some(dd), Some(ww), Some(nn), Some(mm)) = (d, w, n, m) {
                assert(r@ == day_phrase_spec(dd, ww@, nn, mm@));
                assert(spoken_day(r@));
            }
        }
    }
    r
}

proof fn lemma_decimal_first(n: nat)
    ensures
        decimal(n).len() > 0,
        '0' <= decimal(n)[0] <= '9',
    decreases n,
{
    if n >= 10 {
        lemma_decimal_first(n / 10);
        assert(decimal(n)[0] == decimal(n / 10)[0]);
    }
}

/// When the day is spoken as a weekday ("on Monday"), that weekday is the
/// one of the day spoken of, within a day of its UTC weekday as every zone
/// allows, and so never the weekday of the time of speaking when the two
/// are two or more days apart.
pub proof fn law_a_named_weekday_is_the_days_own(
    when: i64,
    now: i64,
    d: Option<i64>,
    w: Option<Seq<char>>,
    n: Option<u32>,
    m: Option<Seq<char>>,
    k: int,
)
    requires
        answers_about(when, now, d, w, n, m),
        0 <= k < 7,
        relative_day_spec(when, now, d, w, n, m) == "on "@ + weekday_names()[k],
    ensures
        weekday_near(k, when),
{
    reveal_strlit("on an unknown day");
    reveal_strlit("today");
    reveal_strlit("yesterday");
    reveal_strlit("on ");
    reveal_strlit(" ");
    reveal_strlit("Monday");
    reveal_strlit("Tuesday");
    reveal_strlit("Wednesday");
    reveal_strlit("Thursday");
    reveal_strlit("Friday");
    reveal_strlit("Saturday");
    reveal_strlit("Sunday");
    let r = relative_day_spec(when, now, d, w, n, m);
    let name = weekday_names()[k];
    assert(name.len() > 0 && 'A' <= name[0] <= 'Z');
    assert(r.len() > 3 && r[3] == name[0]);
    if r == "on an unknown day"@ {
        assert(r[3] == 'a');
    } else {
        let (dd, ww, nn, mm) = (d->0, w->0, n->0, m->0);
        assert(r == day_phrase_spec(dd, ww, nn, mm));
        if dd == 0 {
            assert(r[0] == 't');
        } else if dd == 1 {
            assert(r[0] == 'y');
        } else if 2 <= dd <= 6 {
            assert(r == "on "@ + ww);
            assert(ww =~= r.skip(3));
            assert(name =~= r.skip(3));
            let j = choose|j: int| 0 <= j < 7 && #[trigger] weekday_names()[j] == ww && weekday_near(j, when);
            assert(weekday_names()[j] == weekday_names()[k]);
            if j != k {
                assert(weekday_names()[j][0] != weekday_names()[k][0] || weekday_names()[j].len()
                    != weekday_names()[k].len() || weekday_names()[j][1] != weekday_names()[k][1]);
            }
        } else {
            lemma_decimal_first(nn as nat);
            assert(r == "on "@ + decimal(nn as nat) + " "@ + mm);
            assert(r[3] == decimal(nn as nat)[0]);
        }
    }
}

proof fn lemma_decimal_plain(n: nat)
    ensures
        plain(crate::text::decimal(n)),
    decreases n,
{
    if n >= 10 {
        lemma_decimal_plain(n / 10);
        assert(crate::text::decimal(n) == crate::text::decimal(n / 10).push(crate::text::digit_char(n % 10)));
    }
}

proof fn lemma_names_plain()
    ensures
        forall|k: int| 0 <= k < weekday_names().len() ==> plain(#[trigger] weekday_names()[k]),
        forall|k: int| 0 <= k < month_names().len() ==> plain(#[trigger] month_names()[k]),
{
    reveal_strlit("Monday");
    reveal_strlit("Tuesday");
    reveal_strlit("Wednesday");
    reveal_strlit("Thursday");
    reveal_strlit("Friday");
    reveal_strlit("Saturday");
    reveal_strlit("Sunday");
    reveal_strlit("January");
    reveal_strlit("February");
    reveal_strlit("March");
    reveal_strlit("April");
    reveal_strlit("May");
    reveal_strlit("June");
    reveal_strlit("July");
    reveal_strlit("August");
    reveal_strlit("September");
    reveal_strlit("October");
    reveal_strlit("November");
    reveal_strlit("December");
}

/// A spoken day never holds a line break, `*` or `#`: it is plain words
/// and digits.
pub proof fn law_spoken_days_are_plain(w: Seq<char>)
    requires
        spoken_day(w),
    ensures
        plain(w),
{
    lemma_names_plain();
    reveal_strlit("on an unknown day");
    reveal_strlit("today");
    reveal_strlit("yesterday");
    reveal_strlit("on ");
    reveal_strlit(" ");
    if w != "on an unknown day"@ {
        let (d, wd, n, m) = choose|d: i64, wd: Seq<char>, n: u32, m: Seq<char>|
            weekday_names().contains(wd) && 1 <= n <= 31 && month_names().contains(m) && w == #[trigger] day_phrase_spec(
                d,
                wd,
                n,
                m,
            );
        lemma_decimal_plain(n as nat);
        let kw = choose|k: int| 0 <= k < weekday_names().len() && weekday_names()[k] == wd;
        let km = choose|k: int| 0 <= k < month_names().len() && month_names()[k] == m;
        assert(plain(wd));
        assert(plain(m));
        if 2 <= d <= 6 {
            assert(w == "on "@ + wd);
            assert forall|i: int| 0 <= i < w.len() implies plain_char(#[trigger] w[i]) by {
                if i >= 3 {
                    assert(w[i] == wd[i - 3]);
                }
            }
        } else if d != 0 && d != 1 {
            let dn = crate::text::decimal(n as nat);
            assert(w == "on "@ + dn + " "@ + m);
            assert forall|i: int| 0 <= i < w.len() implies plain_char(#[trigger] w[i]) by {
                if 3 <= i < 3 + dn.len() {
                    assert(w[i] == dn[i - 3]);
                } else if i >= 4 + dn.len() {
                    assert(w[i] == m[i - 4 - dn.len()]);
                }
            }
        }
    }
}

proof fn lemma_lit_free_of(s: Seq<char>, c: char)
    requires
        forall|i: int| 0 <= i < s.len() ==> s[i] != '\n' && s[i] != '*' && s[i] != '#',
        is_mark(c),
    ensures
        free_of(s, c),
{
}

proof fn lemma_comma_join_free_of(items: Seq<Seq<char>>, c: char)
    requires
        is_mark(c),
        forall|k: int| 0 <= k < items.len() ==> free_of(#[trigger] items[k], c),
    ensures
        free_of(crate::text::comma_join(items), c),
    decreases items.len(),
{
    if items.len() > 1 {
        lemma_comma_join_free_of(items.drop_last(), c);
        reveal_strlit(", ");
        lemma_lit_free_of(", "@, c);
        lemma_free_of_concat(crate::text::comma_join(items.drop_last()), ", "@, c);
        lemma_free_of_concat(crate::text::comma_join(items.drop_last()) + ", "@, items.last(), c);
    }
}

proof fn lemma_join_free_of(items: Seq<Seq<char>>, c: char)
    requires
        is_mark(c),
        forall|k: int| 0 <= k < items.len() ==> free_of(#[trigger] items[k], c),
    ensures
        free_of(join_naturally_spec(items), c),
{
    if items.len() > 1 {
        lemma_comma_join_free_of(items.drop_last(), c);
        reveal_strlit(" and ");
        lemma_lit_free_of(" and "@, c);
        lemma_free_of_concat(crate::text::comma_join(items.drop_last()), " and "@, c);
        lemma_free_of_concat(crate::text::comma_join(items.drop_last()) + " and "@, items.last(), c);
    }
}

proof fn lemma_clause_free_of(
    names: Seq<Seq<char>>,
    one_a: Seq<char>,
    one_b: Seq<char>,
    many_a: Seq<char>,
    many_b: Seq<char>,
    c: char,
)
    requires
        is_mark(c),
        names.len() > 0,
        forall|k: int| 0 <= k < names.len() ==> free_of(#[trigger] names[k], c),
        free_of(one_a, c),
        free_of(one_b, c),
        free_of(many_a, c),
        free_of(many_b, c),
    ensures
        free_of(clause(names, one_a, one_b, many_a, many_b), c),
{
    if names.len() == 1 {
        lemma_free_of_concat(one_a, names[0], c);
        lemma_free_of_concat(one_a + names[0], one_b, c);
    } else {
        lemma_decimal_plain(names.len());
        lemma_plain_free_of(decimal(names.len()), c);
        lemma_join_free_of(names, c);
        lemma_free_of_concat(many_a, decimal(names.len()), c);
        lemma_free_of_concat(many_a + decimal(names.len()), many_b, c);
        lemma_free_of_concat(many_a + decimal(names.len()) + many_b, join_naturally_spec(names), c);
    }
}

proof fn lemma_names_by_free_of(g: Seq<Change>, f: spec_fn(Change) -> Option<Seq<char>>, c: char)
    requires
        forall|i: int| 0 <= i < g.len() ==> (#[trigger] f(g[i]) matches Some(n) ==> free_of(n, c)),
    ensures
        forall|k: int| 0 <= k < names_by(g, f).len() ==> free_of(#[trigger] names_by(g, f)[k], c),
{
    let q = g.map_values(f);
    crate::text::lemma_keep_some_members(q);
    assert forall|k: int| 0 <= k < names_by(g, f).len() implies free_of(#[trigger] names_by(g, f)[k], c) by {
        let x = names_by(g, f)[k];
        assert(names_by(g, f).contains(x));
        let i = choose|i: int| 0 <= i < q.len() && #[trigger] q[i] == Some(x);
        assert(f(g[i]) == Some(x));
    }
}

/// No package that the changes are about has `c` in its name.
pub open spec fn names_free_of(g: Seq<Change>, c: char) -> bool {
    forall|i: int| 0 <= i < g.len() ==> free_of(crate::sentinel::change::package_of((#[trigger] g[i]).kind), c)
}

/// A spoken sentence holds a line break, `*` or `#` only where a package's
/// own name does: everything else in it is fixed wording, counts and a
/// spoken day.
pub proof fn law_sentences_are_plain(g: Seq<Change>, w: Seq<char>, c: char)
    requires
        spoken_day(w),
        is_mark(c),
        names_free_of(g, c),
    ensures
        sentence_spec(g, w) matches Some(x) ==> free_of(x, c),
{
    let s = sorted_spec(g, false);
    law_sort_keeps_changes(g, false);
    assert(names_free_of(s, c)) by {
        assert forall|i: int| 0 <= i < s.len() implies free_of(
            crate::sentinel::change::package_of((#[trigger] s[i]).kind),
            c,
        ) by {
            assert(s.contains(s[i]));
            let j = choose|j: int| 0 <= j < g.len() && g[j] == s[i];
        }
    }
    let fp = |x: Change| pulled_in_name(x);
    let fr = |x: Change| removed_name(x);
    let fd = |x: Change| downgraded_name(x);
    lemma_names_by_free_of(s, fp, c);
    lemma_names_by_free_of(s, fr, c);
    lemma_names_by_free_of(s, fd, c);
    reveal_strlit("pulled in ");
    reveal_strlit(", which you didn't ask for");
    reveal_strlit(" packages you didn't ask for: ");
    reveal_strlit("removed ");
    reveal_strlit("");
    reveal_strlit(" packages: ");
    reveal_strlit("put ");
    reveal_strlit(" back to an older version");
    reveal_strlit(" packages back to older versions: ");
    reveal_strlit("Your system update ");
    reveal_strlit(" ");
    reveal_strlit(".");
    lemma_lit_free_of("pulled in "@, c);
    lemma_lit_free_of(", which you didn't ask for"@, c);
    lemma_lit_free_of(" packages you didn't ask for: "@, c);
    lemma_lit_free_of("removed "@, c);
    lemma_lit_free_of(""@, c);
    lemma_lit_free_of(" packages: "@, c);
    lemma_lit_free_of("put "@, c);
    lemma_lit_free_of(" back to an older version"@, c);
    lemma_lit_free_of(" packages back to older versions: "@, c);
    lemma_lit_free_of("Your system update "@, c);
    lemma_lit_free_of(" "@, c);
    lemma_lit_free_of("."@, c);
    let pulled = names_by(s, fp);
    let removed = names_by(s, fr);
    let down = names_by(s, fd);
    let parts = clauses(g);
    if pulled.len() > 0 {
        lemma_clause_free_of(
            pulled,
            "pulled in "@,
            ", which you didn't ask for"@,
            "pulled in "@,
            " packages you didn't ask for: "@,
            c,
        );
    }
    if removed.len() > 0 {
        lemma_clause_free_of(removed, "removed "@, ""@, "removed "@, " packages: "@, c);
    }
    if down.len() > 0 {
        lemma_clause_free_of(
            down,
            "put "@,
            " back to an older version"@,
            "put "@,
            " packages back to older versions: "@,
            c,
        );
    }
    assert forall|k: int| 0 <= k < parts.len() implies free_of(#[trigger] parts[k], c) by {}
    if parts.len() > 0 {
        law_spoken_days_are_plain(w);
        lemma_plain_free_of(w, c);
        lemma_join_free_of(parts, c);
        lemma_free_of_concat("Your system update "@, w, c);
        lemma_free_of_concat("Your system update "@ + w, " "@, c);
        lemma_free_of_concat("Your system update "@ + w + " "@, join_naturally_spec(parts), c);
        lemma_free_of_concat("Your system update "@ + w + " "@ + join_naturally_spec(parts), "."@, c);
    }
}

/// The instant whose day a transaction's sentence names: its earliest
/// change's, the first of equals in the order the changes came.
pub fn summary_instant(group: &[Change]) -> (r: Option<i64>)
    ensures
        group@.len() == 0 ==> r is None,
        group@.len() > 0 ==> r == Some(sorted_spec(group@, false)[0].occurred_at),
        r matches Some(t) ==> forall|i: int| 0 <= i < group@.len() ==> t <= (#[trigger] group@[i]).occurred_at,
        r matches Some(t) ==> exists|i: int| 0 <= i < group@.len() && (#[trigger] group@[i]).occurred_at == t,
{
    if group.len() == 0 {
        return None;
    }
    let s = sort_changes(group, false);
    proof {
        lemma_sorted_len(group@, false);
        law_sort_orders(group@, false);
        law_sort_keeps_changes(group@, false);
        let ss = sorted_spec(group@, false);
        assert forall|i: int| 0 <= i < group@.len() implies ss[0].occurred_at <= (#[trigger] group@[i]).occurred_at by {
            assert(group@.contains(group@[i]));
            assert(ss.contains(group@[i]));
            let j = choose|j: int| 0 <= j < ss.len() && ss[j] == group@[i];
            if j > 0 {
                assert(!before(ss[j], ss[0], false));
            }
        }
        assert(ss.contains(ss[0]));
        assert(group@.contains(ss[0]));
    }
    Some(s[0].occurred_at)
}

/// One spoken sentence for a transaction, or `None` when nothing in it is
/// worth interrupting for. The day is named by this machine's clock.
pub fn summarize(group: &[Change]) -> (r: Option<String>)
    ensures
        r is None <==> clauses(group@).len() == 0,
        r is None <==> !exists|i: int| 0 <= i < group@.len() && speaks_of(#[trigger] group@[i]),
        r matches Some(x) ==> exists|w: Seq<char>| spoken_day(w) && sentence_spec(group@, w) == Some(x@),
        r matches Some(x) ==> group@.len() > 0 && exists|
            now: i64,
            d: Option<i64>,
            w: Option<Seq<char>>,
            n: Option<u32>,
            m: Option<Seq<char>>,
        |
            sentence_spec(
                group@,
                #[trigger] relative_day_spec(sorted_spec(group@, false)[0].occurred_at, now, d, w, n, m),
            ) == Some(x@),
        r matches Some(x) ==> (!in_clock_range(sorted_spec(group@, false)[0].occurred_at) ==> sentence_spec(
            group@,
            "on an unknown day"@,
        ) == Some(x@)),
        r matches Some(x) ==> has_prefix(x@, "Your system update "@) && x@.len() > 0 && x@.last() == '.',
        r matches Some(x) ==> forall|i: int|
            0 <= i < group@.len() && speaks_of(#[trigger] group@[i]) ==> has_sub(
                x@,
                crate::sentinel::change::package_of(group@[i].kind),
            ),
{
    proof {
        lemma_clauses_iff_spoken(group@);
    }
    if group.len() == 0 {
        assert(clauses(group@) =~= Seq::<Seq<char>>::empty()) by {
            assert(sorted_spec(group@, false) =~= Seq::<Change>::empty());
            assert(sorted_spec(group@, false).map_values(|c: Change| pulled_in_name(c)) =~= Seq::<Option<Seq<char>>>::empty());
            assert(sorted_spec(group@, false).map_values(|c: Change| removed_name(c)) =~= Seq::<Option<Seq<char>>>::empty());
            assert(sorted_spec(group@, false).map_values(|c: Change| downgraded_name(c)) =~= Seq::<Option<Seq<char>>>::empty());
        }
        return None;
    }
    let at = match summary_instant(group) {
        Some(t) => t,
        None => 0,
    };
    let when = relative_day(at);
    let r = summary_sentence(group, when.as_str());
    proof {
        law_sentence_shape(group@, when@);
        if r is Some {
            let x = r->0;
            let head = "Your system update "@;
            assert(x@.subrange(0, head.len() as int) =~= (head + when@ + " "@).subrange(0, head.len() as int));
            assert((head + when@ + " "@).subrange(0, head.len() as int) =~= head);
        }
    }
    r
}

/// Sentences for the groups of a batch, each with its own day phrase.
pub open spec fn sentences_upto(gs: Seq<Seq<Change>>, whens: Seq<Seq<char>>, n: int) -> Seq<Seq<char>>
    decreases n,
{
    if n <= 0 {
        Seq::empty()
    } else {
        let prev = sentences_upto(gs, whens, n - 1);
        match sentence_spec(gs[n - 1], whens[n - 1]) {
            Some(x) => prev.push(x),
            None => prev,
        }
    }
}

proof fn lemma_sentences_prefix(gs: Seq<Seq<Change>>, p: Seq<Seq<char>>, q: Seq<Seq<char>>, n: int)
    requires
        0 <= n <= q.len() <= p.len(),
        forall|k: int| 0 <= k < q.len() ==> p[k] == q[k],
    ensures
        sentences_upto(gs, p, n) == sentences_upto(gs, q, n),
    decreases n,
{
    if n > 0 {
        lemma_sentences_prefix(gs, p, q, n - 1);
    }
}

/// Sentences for a whole batch, one per transaction that has something
/// worth saying, in transaction order.
/// The earliest change of a transaction lies outside the calendar's range,
/// so its day cannot be named.
pub open spec fn first_instant_unplaceable(g: Seq<Change>) -> bool {
    g.len() > 0 && !in_clock_range(sorted_spec(g, false)[0].occurred_at)
}

pub fn summarize_all(changes: &[Change]) -> (r: Vec<String>)
    ensures
        exists|whens: Seq<Seq<char>>|
            (forall|k: int| 0 <= k < whens.len() ==> spoken_day(#[trigger] whens[k])) && (forall|k: int|
                0 <= k < whens.len() ==> (first_instant_unplaceable(
                    #[trigger] groups_spec(changes@, TRANSACTION_GAP_SECS)[k],
                ) ==> whens[k] == "on an unknown day"@)) && crate::text::strings_view(r@) == #[trigger] sentences_upto(
                groups_spec(changes@, TRANSACTION_GAP_SECS),
                whens,
                groups_spec(changes@, TRANSACTION_GAP_SECS).len() as int,
            ),
{
    let groups = group_transactions(changes, TRANSACTION_GAP_SECS);
    let ghost gs = groups_view(groups@);
    let ghost mut whens: Seq<Seq<char>> = Seq::empty();
    let mut out: Vec<String> = Vec::new();
    let mut i: usize = 0;
    while i < groups.len()
        invariant
            i <= groups.len(),
            gs == groups_view(groups@),
            whens.len() == i,
            forall|k: int| 0 <= k < whens.len() ==> spoken_day(#[trigger] whens[k]),
            forall|k: int|
                0 <= k < whens.len() ==> (first_instant_unplaceable(#[trigger] gs[k]) ==> whens[k]
                    == "on an unknown day"@),
            crate::text::strings_view(out@) == sentences_upto(gs, whens, i as int),
        decreases groups.len() - i,
    {
        let got = summarize(&groups[i]);
        assert(gs[i as int] == groups@[i as int]@);
        let ghost w: Seq<char> = if got is Some && !first_instant_unplaceable(gs[i as int]) {
            choose|w: Seq<char>| spoken_day(w) && sentence_spec(gs[i as int], w) == Some(got->0@)
        } else {
            "on an unknown day"@
        };
        let ghost old_whens = whens;
        proof {
            whens = whens.push(w);
            lemma_sentences_prefix(gs, whens, old_whens, i as int);
        }
        let ghost prev = out@;
        match got {
            Some(x) => {
                out.push(x);
                assert(crate::text::strings_view(out@) =~= crate::text::strings_view(prev).push(x@));
            },
            None => {
                assert(sentence_spec(gs[i as int], w) is None);
            },
        }
        i = i + 1;
    }
    assert(gs == groups_spec(changes@, TRANSACTION_GAP_SECS));
    assert(crate::text::strings_view(out@) == sentences_upto(
        groups_spec(changes@, TRANSACTION_GAP_SECS),
        whens,
        groups_spec(changes@, TRANSACTION_GAP_SECS).len() as int,
    ));
    out
}

proof fn lemma_keep_some_empty<A>(q: Seq<Option<A>>)
    ensures
        keep_some(q).len() == 0 <==> forall|k: int| 0 <= k < q.len() ==> q[k] is None,
    decreases q.len(),
{
    if q.len() > 0 {
        lemma_keep_some_empty(q.drop_last());
        if keep_some(q).len() == 0 {
            assert forall|k: int| 0 <= k < q.len() implies q[k] is None by {
                if k < q.len() - 1 {
                    assert(q[k] == q.drop_last()[k]);
                }
            }
        } else {
            if forall|k: int| 0 <= k < q.len() ==> q[k] is None {
                assert forall|k: int| 0 <= k < q.drop_last().len() implies q.drop_last()[k] is None by {
                    assert(q.drop_last()[k] == q[k]);
                }
                assert(q.last() is None);
            }
        }
    }
}

pub open spec fn speaks_of(c: Change) -> bool {
    pulled_in_name(c) is Some || removed_name(c) is Some || downgraded_name(c) is Some
}

proof fn lemma_names_empty(s: Seq<Change>, f: spec_fn(Change) -> Option<Seq<char>>)
    ensures
        names_by(s, f).len() == 0 <==> forall|k: int| 0 <= k < s.len() ==> f(s[k]) is None,
{
    let q = s.map_values(f);
    lemma_keep_some_empty(q);
    if names_by(s, f).len() == 0 {
        assert forall|k: int| 0 <= k < s.len() implies f(s[k]) is None by {
            assert(q[k] == f(s[k]));
        }
    }
    if forall|k: int| 0 <= k < s.len() ==> f(s[k]) is None {
        assert forall|k: int| 0 <= k < q.len() implies q[k] is None by {
            assert(q[k] == f(s[k]));
        }
    }
}

/// A transaction is spoken about exactly when it holds a change that is
/// Notable: a package nobody asked for, a removal or a downgrade. Routine
/// changes (upgrades, requested installs) are never mentioned.
pub proof fn law_only_notable_changes_are_spoken(g: Seq<Change>, when: Seq<char>)
    requires
        forall|i: int| 0 <= i < g.len() ==> (#[trigger] g[i]).severity == classify_spec(g[i].kind),
    ensures
        sentence_spec(g, when) is Some <==> exists|i: int|
            0 <= i < g.len() && (#[trigger] g[i]).severity == Severity::Notable,
{
    lemma_clauses_iff_spoken(g);
    assert forall|c: Change| g.contains(c) implies (c.severity == Severity::Notable <==> speaks_of(c)) by {
        let i = choose|i: int| 0 <= i < g.len() && g[i] == c;
        assert(g[i].severity == classify_spec(g[i].kind));
    }
    if exists|i: int| 0 <= i < g.len() && (#[trigger] g[i]).severity == Severity::Notable {
        let i = choose|i: int| 0 <= i < g.len() && (#[trigger] g[i]).severity == Severity::Notable;
        assert(g.contains(g[i]));
        assert(speaks_of(g[i]));
    }
    if exists|i: int| 0 <= i < g.len() && speaks_of(#[trigger] g[i]) {
        let i = choose|i: int| 0 <= i < g.len() && speaks_of(#[trigger] g[i]);
        assert(g.contains(g[i]));
        assert(g[i].severity == Severity::Notable);
    }
}

proof fn lemma_clauses_iff_spoken(g: Seq<Change>)
    ensures
        clauses(g).len() > 0 <==> exists|i: int| 0 <= i < g.len() && speaks_of(#[trigger] g[i]),
{
    let s = sorted_spec(g, false);
    law_sort_keeps_changes(g, false);
    lemma_names_empty(s, |c: Change| pulled_in_name(c));
    lemma_names_empty(s, |c: Change| removed_name(c));
    lemma_names_empty(s, |c: Change| downgraded_name(c));
    if exists|i: int| 0 <= i < g.len() && speaks_of(#[trigger] g[i]) {
        let i = choose|i: int| 0 <= i < g.len() && speaks_of(#[trigger] g[i]);
        assert(g.contains(g[i]));
        assert(s.contains(g[i]));
        let k = choose|k: int| 0 <= k < s.len() && s[k] == g[i];
        if pulled_in_name(s[k]) is Some {
            assert(names_by(s, |c: Change| pulled_in_name(c)).len() > 0);
        } else if removed_name(s[k]) is Some {
            assert(names_by(s, |c: Change| removed_name(c)).len() > 0);
        } else {
            assert(names_by(s, |c: Change| downgraded_name(c)).len() > 0);
        }
    }
    if clauses(g).len() > 0 {
        if names_by(s, |c: Change| pulled_in_name(c)).len() > 0 {
            let k = choose|k: int| 0 <= k < s.len() && pulled_in_name(s[k]) is Some;
            assert(speaks_of(s[k]));
        } else if names_by(s, |c: Change| removed_name(c)).len() > 0 {
            let k = choose|k: int| 0 <= k < s.len() && removed_name(s[k]) is Some;
            assert(speaks_of(s[k]));
        } else {
            let k = choose|k: int| 0 <= k < s.len() && downgraded_name(s[k]) is Some;
            assert(speaks_of(s[k]));
        }
        let k = choose|k: int| 0 <= k < s.len() && speaks_of(s[k]);
        assert(s.contains(s[k]));
        assert(g.contains(s[k]));
        let i = choose|i: int| 0 <= i < g.len() && g[i] == s[k];
        assert(speaks_of(g[i]));
    }
}

proof fn lemma_picked_name_listed(s: Seq<Change>, f: spec_fn(Change) -> Option<Seq<char>>, k: int)
    requires
        0 <= k < s.len(),
        f(s[k]) is Some,
    ensures
        exists|j: int| 0 <= j < names_by(s, f).len() && names_by(s, f)[j] == f(s[k])->0,
{
    let q = s.map_values(f);
    crate::text::lemma_keep_some_members(q);
    assert(q[k] == f(s[k]));
    assert(names_by(s, f).contains(q[k]->0));
}

proof fn lemma_clause_names(
    names: Seq<Seq<char>>,
    one_a: Seq<char>,
    one_b: Seq<char>,
    many_a: Seq<char>,
    many_b: Seq<char>,
    j: int,
)
    requires
        0 <= j < names.len(),
    ensures
        has_sub(clause(names, one_a, one_b, many_a, many_b), names[j]),
{
    if names.len() == 1 {
        lemma_has_sub_self(names[0]);
        lemma_has_sub_right(one_a, names[0], names[j]);
        lemma_has_sub_left(one_a + names[0], one_b, names[j]);
    } else {
        lemma_join_naturally_has(names, j);
        lemma_has_sub_right(many_a + decimal(names.len()) + many_b, join_naturally_spec(names), names[j]);
    }
}

/// What a transaction's sentence looks like. There is one exactly when the
/// transaction holds a package nobody asked for, a removal or a downgrade;
/// it opens with "Your system update " and the day, ends with a full stop,
/// and names every such package.
pub proof fn law_sentence_shape(g: Seq<Change>, w: Seq<char>)
    ensures
        sentence_spec(g, w) is Some <==> exists|i: int| 0 <= i < g.len() && speaks_of(#[trigger] g[i]),
        sentence_spec(g, w) matches Some(x) ==> has_prefix(x, "Your system update "@ + w + " "@) && x.len()
            > 0 && x.last() == '.',
        sentence_spec(g, w) matches Some(x) ==> forall|i: int|
            0 <= i < g.len() && speaks_of(#[trigger] g[i]) ==> has_sub(
                x,
                crate::sentinel::change::package_of(g[i].kind),
            ),
{
    lemma_clauses_iff_spoken(g);
    let parts = clauses(g);
    if parts.len() > 0 {
        reveal_strlit(".");
        let head = "Your system update "@ + w + " "@;
        let x = head + join_naturally_spec(parts) + "."@;
        assert(x.subrange(0, head.len() as int) =~= head);
        let s = sorted_spec(g, false);
        law_sort_keeps_changes(g, false);
        let fp = |c: Change| pulled_in_name(c);
        let fr = |c: Change| removed_name(c);
        let fd = |c: Change| downgraded_name(c);
        let pulled = names_by(s, fp);
        let removed = names_by(s, fr);
        let down = names_by(s, fd);
        assert forall|i: int| 0 <= i < g.len() && speaks_of(#[trigger] g[i]) implies has_sub(
            x,
            crate::sentinel::change::package_of(g[i].kind),
        ) by {
            let n = crate::sentinel::change::package_of(g[i].kind);
            assert(g.contains(g[i]));
            assert(s.contains(g[i]));
            let k = choose|k: int| 0 <= k < s.len() && s[k] == g[i];
            let np: int = if pulled.len() > 0 { 1 } else { 0 };
            let nr: int = if removed.len() > 0 { 1 } else { 0 };
            let at: int = if pulled_in_name(s[k]) is Some {
                0
            } else if removed_name(s[k]) is Some {
                np
            } else {
                np + nr
            };
            if pulled_in_name(s[k]) is Some {
                lemma_picked_name_listed(s, fp, k);
                let j = choose|j: int| 0 <= j < pulled.len() && pulled[j] == fp(s[k])->0;
                lemma_clause_names(
                    pulled,
                    "pulled in "@,
                    ", which you didn't ask for"@,
                    "pulled in "@,
                    " packages you didn't ask for: "@,
                    j,
                );
            } else if removed_name(s[k]) is Some {
                lemma_picked_name_listed(s, fr, k);
                let j = choose|j: int| 0 <= j < removed.len() && removed[j] == fr(s[k])->0;
                lemma_clause_names(removed, "removed "@, ""@, "removed "@, " packages: "@, j);
            } else {
                lemma_picked_name_listed(s, fd, k);
                let j = choose|j: int| 0 <= j < down.len() && down[j] == fd(s[k])->0;
                lemma_clause_names(
                    down,
                    "put "@,
                    " back to an older version"@,
                    "put "@,
                    " packages back to older versions: "@,
                    j,
                );
            }
            assert(has_sub(parts[at], n));
            lemma_join_naturally_has(parts, at);
            lemma_has_sub_trans(join_naturally_spec(parts), parts[at], n);
            lemma_has_sub_right(head, join_naturally_spec(parts), n);
            lemma_has_sub_left(head + join_naturally_spec(parts), "."@, n);
        }
    }
}

proof fn lemma_time_sorted_unique(a: Seq<Change>, b: Seq<Change>)
    requires
        a.to_multiset() == b.to_multiset(),
        forall|i: int, j: int| 0 <= i < j < a.len() ==> (#[trigger] a[i]).occurred_at <= (#[trigger] a[j]).occurred_at,
        forall|i: int, j: int| 0 <= i < j < b.len() ==> (#[trigger] b[i]).occurred_at <= (#[trigger] b[j]).occurred_at,
        forall|x: Change, y: Change|
            a.contains(x) && a.contains(y) && x.occurred_at == y.occurred_at ==> x == y,
    ensures
        a == b,
    decreases a.len(),
{
    broadcast use vstd::seq_lib::group_to_multiset_ensures, vstd::multiset::group_multiset_axioms;

    assert(a.len() == a.to_multiset().len());
    assert(b.len() == b.to_multiset().len());
    if a.len() == 0 {
        assert(a =~= b);
    } else {
        let x = a.last();
        let y = b.last();
        assert(a.contains(x));
        assert(a.to_multiset().count(x) > 0);
        assert(b.contains(x));
        let k = choose|k: int| 0 <= k < b.len() && b[k] == x;
        if k < b.len() - 1 {
            assert(b[k].occurred_at <= b[b.len() - 1].occurred_at);
        }
        assert(b.contains(y));
        assert(b.to_multiset().count(y) > 0);
        assert(a.contains(y));
        let m = choose|m: int| 0 <= m < a.len() && a[m] == y;
        if m < a.len() - 1 {
            assert(a[m].occurred_at <= a[a.len() - 1].occurred_at);
        }
        assert(x == y);
        let a2 = a.drop_last();
        let b2 = b.drop_last();
        assert(a2.push(x) =~= a);
        assert(b2.push(x) =~= b);
        assert(a2.push(x).to_multiset() =~= a2.to_multiset().insert(x));
        assert(b2.push(x).to_multiset() =~= b2.to_multiset().insert(x));
        assert(a.to_multiset() == a2.to_multiset().insert(x));
        assert(b.to_multiset() == b2.to_multiset().insert(x));
        assert(a2.to_multiset() =~= b2.to_multiset()) by {
            assert forall|z: Change| a2.to_multiset().count(z) == b2.to_multiset().count(z) by {
                if z == x {
                    vstd::multiset::lemma_insert_increases_count_by_1(a2.to_multiset(), x);
                    vstd::multiset::lemma_insert_increases_count_by_1(b2.to_multiset(), x);
                } else {
                    vstd::multiset::lemma_insert_other_elements_unchanged(a2.to_multiset(), x, z);
                    vstd::multiset::lemma_insert_other_elements_unchanged(b2.to_multiset(), x, z);
                }
                assert(a.to_multiset().count(z) == b.to_multiset().count(z));
            }
        }
        assert forall|u: Change, v: Change|
            a2.contains(u) && a2.contains(v) && u.occurred_at == v.occurred_at implies u == v by {
            let iu = choose|i: int| 0 <= i < a2.len() && a2[i] == u;
            let iv = choose|i: int| 0 <= i < a2.len() && a2[i] == v;
            assert(a[iu] == u);
            assert(a[iv] == v);
            assert(a.contains(u));
            assert(a.contains(v));
        }
        lemma_time_sorted_unique(a2, b2);
        assert(a =~= b);
    }
}

/// A transaction's sentence does not depend on the order in which its
/// changes came, as long as changes made in the same second are the same
/// change: the changes are sorted by time before anything is said of them.
pub proof fn law_sentence_ignores_order(g: Seq<Change>, h: Seq<Change>, w: Seq<char>)
    requires
        g.to_multiset() == h.to_multiset(),
        forall|i: int, j: int|
            0 <= i < g.len() && 0 <= j < g.len() && (#[trigger] g[i]).occurred_at == (#[trigger] g[j]).occurred_at
                ==> g[i] == g[j],
    ensures
        sorted_spec(g, false) == sorted_spec(h, false),
        sentence_spec(g, w) == sentence_spec(h, w),
{
    let sg = sorted_spec(g, false);
    let sh = sorted_spec(h, false);
    law_sort_permutes(g, false);
    law_sort_permutes(h, false);
    law_sort_orders(g, false);
    law_sort_orders(h, false);
    law_sort_keeps_changes(g, false);
    assert forall|i: int, j: int| 0 <= i < j < sg.len() implies (#[trigger] sg[i]).occurred_at <= (
    #[trigger] sg[j]).occurred_at by {
        assert(!before(sg[j], sg[i], false));
    }
    assert forall|i: int, j: int| 0 <= i < j < sh.len() implies (#[trigger] sh[i]).occurred_at <= (
    #[trigger] sh[j]).occurred_at by {
        assert(!before(sh[j], sh[i], false));
    }
    assert forall|x: Change, y: Change|
        sg.contains(x) && sg.contains(y) && x.occurred_at == y.occurred_at implies x == y by {
        assert(g.contains(x));
        assert(g.contains(y));
        let i = choose|i: int| 0 <= i < g.len() && g[i] == x;
        let j = choose|j: int| 0 <= j < g.len() && g[j] == y;
    }
    lemma_time_sorted_unique(sg, sh);
    assert(clauses(g) == clauses(h));
}

/// The highest severity present, used to pick the alert channel.
pub fn peak_severity(changes: &[Change]) -> (r: Option<Severity>)
    ensures
        r is None <==> changes@.len() == 0,
        r matches Some(s) ==> is_peak(changes@, s),
{
    worst(changes)
}

} // verus!
