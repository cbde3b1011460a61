//! What holds of privilege diffs across calls: a computed diff, applied to the rows it was
//! computed from, gives back the target rows; merging two diffs has the effect of applying one
//! after the other.
use vstd::prelude::*;

use crate::muscl_core::database_privileges::base::{DatabasePrivilegeRow, PrivilegeRowView};
use crate::muscl_core::database_privileges::diff::{
    DatabasePrivilegeChange,
    apply_change, apply_changes, apply_diffs, change_between, changes_between, dedup, deletions,
    diff_effect, diff_key, diff_mappend, diffs_for_target, lookup, mappend_changes, no_changes,
    privilege_diffs, row_key, rows_view, state_of, unique_keys, KeyState, PrivilegesDiffView,
    RowKey, create_or_modify_diffs, effective_changes, no_privileges, row_diffs_view, RowDiffView,
    DatabasePrivilegeRowDiff, distinct_diff_keys, keys_map, lemma_keys_map, merge_diffs,
    merged_at, reduced_diff, reduced_diffs,
};

verus! {

/// The row that `lookup` finds has the key it was looked up by.
pub proof fn lemma_lookup_key(rows: Seq<PrivilegeRowView>, k: RowKey)
    ensures
        lookup(rows, k) matches Some(r) ==> row_key(r) == k,
    decreases rows.len(),
{
    if rows.len() > 0 && row_key(rows.last()) != k {
        lemma_lookup_key(rows.drop_last(), k);
    }
}

/// A key that no row has is not found.
pub proof fn lemma_lookup_absent(rows: Seq<PrivilegeRowView>, k: RowKey)
    requires
        forall|i: int| 0 <= i < rows.len() ==> row_key(#[trigger] rows[i]) != k,
    ensures
        lookup(rows, k) is None,
    decreases rows.len(),
{
    if rows.len() > 0 {
        assert(row_key(rows[rows.len() - 1]) != k);
        assert forall|i: int| 0 <= i < rows.drop_last().len() implies row_key(
            #[trigger] rows.drop_last()[i],
        ) != k by {
            assert(rows.drop_last()[i] == rows[i]);
        }
        lemma_lookup_absent(rows.drop_last(), k);
    }
}

/// With unique keys, the key of the last row does not occur before it.
pub proof fn lemma_unique_last(rows: Seq<PrivilegeRowView>)
    requires
        unique_keys(rows),
        rows.len() > 0,
    ensures
        lookup(rows.drop_last(), row_key(rows.last())) is None,
        unique_keys(rows.drop_last()),
{
    let dl = rows.drop_last();
    assert forall|i: int| 0 <= i < dl.len() implies row_key(#[trigger] dl[i]) != row_key(
        rows.last(),
    ) by {
        assert(dl[i] == rows[i]);
        assert(rows.last() == rows[rows.len() - 1]);
    }
    lemma_lookup_absent(dl, row_key(rows.last()));
    assert forall|i: int, j: int| 0 <= i < j < dl.len() implies row_key(#[trigger] dl[i])
        != row_key(#[trigger] dl[j]) by {
        assert(dl[i] == rows[i]);
        assert(dl[j] == rows[j]);
    }
}

/// Rows whose privileges have no changes between them are equal.
pub proof fn lemma_no_changes_equal(p1: Seq<bool>, p2: Seq<bool>)
    requires
        p1.len() == 11,
        p2.len() == 11,
        no_changes(changes_between(p1, p2)),
    ensures
        p1 == p2,
{
    assert forall|i: int| 0 <= i < 11 implies p1[i] == p2[i] by {
        assert(changes_between(p1, p2)[i] is None);
    }
    assert(p1 =~= p2);
}

/// The changes between two sets of privileges take the first to the second.
pub proof fn lemma_apply_between(p1: Seq<bool>, p2: Seq<bool>)
    requires
        p1.len() == 11,
        p2.len() == 11,
    ensures
        apply_changes(changes_between(p1, p2), p1) == p2,
{
    assert(apply_changes(changes_between(p1, p2), p1) =~= p2);
}

/// Applying a concatenation of diffs applies the first part, then the second.
pub proof fn lemma_apply_concat(
    x: Option<KeyState>,
    a: Seq<PrivilegesDiffView>,
    b: Seq<PrivilegesDiffView>,
    k: RowKey,
)
    ensures
        apply_diffs(x, a + b, k) == apply_diffs(apply_diffs(x, a, k), b, k),
    decreases b.len(),
{
    if b.len() == 0 {
        assert(a + b =~= a);
    } else {
        assert((a + b).drop_last() =~= a + b.drop_last());
        assert((a + b).last() == b.last());
        lemma_apply_concat(x, a, b.drop_last(), k);
    }
}

/// Rows that come from privilege rows have eleven privileges.
pub open spec fn well_formed_rows(rows: Seq<PrivilegeRowView>) -> bool {
    forall|i: int| 0 <= i < rows.len() ==> (#[trigger] rows[i]).2.len() == 11
}

proof fn lemma_lookup_well_formed(rows: Seq<PrivilegeRowView>, k: RowKey)
    requires
        well_formed_rows(rows),
    ensures
        lookup(rows, k) matches Some(r) ==> r.2.len() == 11,
    decreases rows.len(),
{
    if rows.len() > 0 {
        assert(rows.last() == rows[rows.len() - 1]);
        if row_key(rows.last()) != k {
            assert forall|i: int| 0 <= i < rows.drop_last().len() implies (
            #[trigger] rows.drop_last()[i]).2.len() == 11 by {
                assert(rows.drop_last()[i] == rows[i]);
            }
            lemma_lookup_well_formed(rows.drop_last(), k);
        }
    }
}

proof fn lemma_drop_last_well_formed(rows: Seq<PrivilegeRowView>)
    requires
        well_formed_rows(rows),
        rows.len() > 0,
    ensures
        well_formed_rows(rows.drop_last()),
{
    assert forall|i: int| 0 <= i < rows.drop_last().len() implies (
    #[trigger] rows.drop_last()[i]).2.len() == 11 by {
        assert(rows.drop_last()[i] == rows[i]);
    }
}

/// The diffs for the rows of `to` bring every key of `to` to its state there and leave the
/// other keys as they were.
proof fn lemma_target_effect(from: Seq<PrivilegeRowView>, to: Seq<PrivilegeRowView>, k: RowKey)
    requires
        unique_keys(to),
        well_formed_rows(from),
        well_formed_rows(to),
    ensures
        apply_diffs(Some(state_of(from, k)), diffs_for_target(from, to), k) == Some(
            if lookup(to, k) is Some {
                state_of(to, k)
            } else {
                state_of(from, k)
            },
        ),
    decreases to.len(),
{
    if to.len() > 0 {
        let p = to.last();
        let dl = to.drop_last();
        assert(p == to[to.len() - 1]);
        lemma_unique_last(to);
        lemma_drop_last_well_formed(to);
        lemma_target_effect(from, dl, k);
        let prev = diffs_for_target(from, dl);
        lemma_lookup_key(from, row_key(p));
        lemma_lookup_well_formed(from, row_key(p));
        match lookup(from, row_key(p)) {
            Some(old) => {
                let cs = changes_between(old.2, p.2);
                if no_changes(cs) {
                    if row_key(p) == k {
                        lemma_no_changes_equal(old.2, p.2);
                    }
                } else {
                    let d = PrivilegesDiffView::Modified((old.0, old.1, cs));
                    assert(prev.push(d).drop_last() =~= prev);
                    if row_key(p) == k {
                        lemma_apply_between(old.2, p.2);
                    }
                }
            },
            None => {
                let d = PrivilegesDiffView::New(p);
                assert(prev.push(d).drop_last() =~= prev);
            },
        }
    }
}

/// The deletions remove each key of `from` that `to` lacks and leave the others alone.
proof fn lemma_deletions_effect(
    f: Seq<PrivilegeRowView>,
    to: Seq<PrivilegeRowView>,
    k: RowKey,
    x: KeyState,
)
    requires
        unique_keys(f),
        (lookup(to, k) is None && lookup(f, k) is Some) ==> x is Some,
    ensures
        apply_diffs(Some(x), deletions(f, to), k) == Some(
            if lookup(to, k) is None && lookup(f, k) is Some {
                None
            } else {
                x
            },
        ),
    decreases f.len(),
{
    if f.len() > 0 {
        let p = f.last();
        let dl = f.drop_last();
        lemma_unique_last(f);
        assert(lookup(dl, k) is Some ==> lookup(f, k) is Some) by {
            if lookup(dl, k) is Some && row_key(p) != k {
            }
        }
        lemma_deletions_effect(dl, to, k, x);
        let prev = deletions(dl, to);
        if lookup(to, row_key(p)) is None {
            let d = PrivilegesDiffView::Deleted(p);
            assert(prev.push(d).drop_last() =~= prev);
        }
    }
}

/// Keys of the diffs for the rows of `to` are keys of `to`, and distinct when those are.
proof fn lemma_target_keys(from: Seq<PrivilegeRowView>, to: Seq<PrivilegeRowView>)
    ensures
        forall|i: int|
            0 <= i < diffs_for_target(from, to).len() ==> lookup(
                to,
                diff_key(#[trigger] diffs_for_target(from, to)[i]),
            ) is Some,
        unique_keys(to) ==> forall|i: int, j: int|
            0 <= i < j < diffs_for_target(from, to).len() ==> diff_key(
                #[trigger] diffs_for_target(from, to)[i],
            ) != diff_key(#[trigger] diffs_for_target(from, to)[j]),
    decreases to.len(),
{
    if to.len() > 0 {
        let p = to.last();
        let dl = to.drop_last();
        lemma_target_keys(from, dl);
        lemma_lookup_key(from, row_key(p));
        let prev = diffs_for_target(from, dl);
        let cur = diffs_for_target(from, to);
        assert forall|i: int| 0 <= i < prev.len() implies lookup(to, diff_key(#[trigger] prev[i]))
            is Some by {
            if row_key(p) != diff_key(prev[i]) {
            }
        }
        if unique_keys(to) {
            lemma_unique_last(to);
        }
        if cur.len() > prev.len() {
            assert(cur.drop_last() =~= prev);
            assert(diff_key(cur.last()) == row_key(p));
            assert forall|i: int| 0 <= i < cur.len() implies lookup(to, diff_key(#[trigger] cur[i]))
                is Some by {
                if i < prev.len() {
                    assert(cur[i] == prev[i]);
                }
            }
            if unique_keys(to) {
                assert forall|i: int, j: int| 0 <= i < j < cur.len() implies diff_key(
                    #[trigger] cur[i],
                ) != diff_key(#[trigger] cur[j]) by {
                    assert(cur[i] == prev[i]);
                    if j < prev.len() {
                        assert(cur[j] == prev[j]);
                    } else {
                        assert(lookup(dl, diff_key(prev[i])) is Some);
                    }
                }
            }
        } else {
            assert(cur =~= prev);
        }
    }
}

/// Keys of the deletions are keys of `f` that `to` lacks, and distinct when those of `f` are.
proof fn lemma_deletion_keys(f: Seq<PrivilegeRowView>, to: Seq<PrivilegeRowView>)
    ensures
        forall|i: int|
            0 <= i < deletions(f, to).len() ==> lookup(
                to,
                diff_key(#[trigger] deletions(f, to)[i]),
            ) is None && lookup(f, diff_key(deletions(f, to)[i])) is Some,
        unique_keys(f) ==> forall|i: int, j: int|
            0 <= i < j < deletions(f, to).len() ==> diff_key(#[trigger] deletions(f, to)[i])
                != diff_key(#[trigger] deletions(f, to)[j]),
    decreases f.len(),
{
    if f.len() > 0 {
        let p = f.last();
        let dl = f.drop_last();
        lemma_deletion_keys(dl, to);
        let prev = deletions(dl, to);
        let cur = deletions(f, to);
        assert forall|i: int| 0 <= i < prev.len() implies lookup(f, diff_key(#[trigger] prev[i]))
            is Some by {
            if row_key(p) != diff_key(prev[i]) {
            }
        }
        if unique_keys(f) {
            lemma_unique_last(f);
        }
        if cur.len() > prev.len() {
            assert(cur.drop_last() =~= prev);
            assert forall|i: int| 0 <= i < cur.len() implies lookup(
                to,
                diff_key(#[trigger] cur[i]),
            ) is None && lookup(f, diff_key(cur[i])) is Some by {
                if i < prev.len() {
                    assert(cur[i] == prev[i]);
                }
            }
            if unique_keys(f) {
                assert forall|i: int, j: int| 0 <= i < j < cur.len() implies diff_key(
                    #[trigger] cur[i],
                ) != diff_key(#[trigger] cur[j]) by {
                    assert(cur[i] == prev[i]);
                    if j < prev.len() {
                        assert(cur[j] == prev[j]);
                    } else {
                        assert(lookup(dl, diff_key(prev[i])) is Some);
                    }
                }
            }
        } else {
            assert(cur =~= prev);
        }
    }
}

/// A sequence without repetitions is its own deduplication.
pub proof fn lemma_dedup_no_duplicates<T>(s: Seq<T>)
    requires
        s.no_duplicates(),
    ensures
        dedup(s) == s,
    decreases s.len(),
{
    if s.len() > 0 {
        let dl = s.drop_last();
        assert(dl.no_duplicates()) by {
            assert forall|i: int, j: int| 0 <= i < dl.len() && 0 <= j < dl.len() && i != j implies dl[i]
                != dl[j] by {
                assert(dl[i] == s[i] && dl[j] == s[j]);
            }
        }
        lemma_dedup_no_duplicates(dl);
        assert(!dl.contains(s.last())) by {
            if dl.contains(s.last()) {
                let i = choose|i: int| 0 <= i < dl.len() && dl[i] == s.last();
                assert(s[i] == s[s.len() - 1]);
            }
        }
        assert(dl.push(s.last()) =~= s);
    }
}

/// A list of diffs with distinct keys still has them without its last diff.
proof fn lemma_distinct_drop_last(s: Seq<PrivilegesDiffView>)
    requires
        distinct_diff_keys(s),
        s.len() > 0,
    ensures
        distinct_diff_keys(s.drop_last()),
{
    let dl = s.drop_last();
    assert forall|i: int, j: int| 0 <= i < j < dl.len() implies diff_key(#[trigger] dl[i])
        != diff_key(#[trigger] dl[j]) by {
        assert(dl[i] == s[i] && dl[j] == s[j]);
    }
}

/// Diffs with other keys leave the state of a key alone.
proof fn lemma_apply_none(x: Option<KeyState>, s: Seq<PrivilegesDiffView>, k: RowKey)
    requires
        forall|j: int| 0 <= j < s.len() ==> diff_key(#[trigger] s[j]) != k,
    ensures
        apply_diffs(x, s, k) == x,
    decreases s.len(),
{
    if s.len() > 0 {
        let dl = s.drop_last();
        assert(s.last() == s[s.len() - 1]);
        assert forall|j: int| 0 <= j < dl.len() implies diff_key(#[trigger] dl[j]) != k by {
            assert(dl[j] == s[j]);
        }
        lemma_apply_none(x, dl, k);
    }
}

/// With distinct keys, only the diff with key `k` acts on the state of `k`.
proof fn lemma_apply_only(x: Option<KeyState>, s: Seq<PrivilegesDiffView>, k: RowKey, i: int)
    requires
        distinct_diff_keys(s),
        0 <= i < s.len(),
        diff_key(s[i]) == k,
    ensures
        apply_diffs(x, s, k) == (match x {
            Some(st) => diff_effect(s[i], st),
            None => None,
        }),
    decreases s.len(),
{
    let dl = s.drop_last();
    assert(s.last() == s[s.len() - 1]);
    if i == s.len() - 1 {
        assert forall|j: int| 0 <= j < dl.len() implies diff_key(#[trigger] dl[j]) != k by {
            assert(dl[j] == s[j]);
        }
        lemma_apply_none(x, dl, k);
    } else {
        lemma_distinct_drop_last(s);
        assert(dl[i] == s[i]);
        lemma_apply_only(x, dl, k, i);
        assert(diff_key(s[i]) != diff_key(s[s.len() - 1]));
    }
}

/// Two lists that hold the same diffs, each once, where one has distinct keys: the other has
/// distinct keys too, and both do the same to the state of every key.
pub proof fn lemma_apply_same_diffs(x: Option<KeyState>, s1: Seq<PrivilegesDiffView>, s2: Seq<PrivilegesDiffView>, k: RowKey)
    requires
        distinct_diff_keys(s1),
        s1.no_duplicates(),
        s2.no_duplicates(),
        s1.to_set() == s2.to_set(),
    ensures
        distinct_diff_keys(s2),
        apply_diffs(x, s1, k) == apply_diffs(x, s2, k),
{
    lemma_same_diffs_distinct(s1, s2);
    if exists|i: int| 0 <= i < s1.len() && diff_key(s1[i]) == k {
        let i = choose|i: int| 0 <= i < s1.len() && diff_key(s1[i]) == k;
        assert(s1.to_set().contains(s1[i]));
        assert(s2.contains(s1[i]));
        let j = choose|j: int| 0 <= j < s2.len() && s2[j] == s1[i];
        lemma_apply_only(x, s1, k, i);
        lemma_apply_only(x, s2, k, j);
    } else {
        assert forall|j: int| 0 <= j < s2.len() implies diff_key(#[trigger] s2[j]) != k by {
            assert(s2.to_set().contains(s2[j]));
            assert(s1.contains(s2[j]));
        }
        assert forall|j: int| 0 <= j < s1.len() implies diff_key(#[trigger] s1[j]) != k by {}
        lemma_apply_none(x, s1, k);
        lemma_apply_none(x, s2, k);
    }
}

/// A list that holds, each once, the same diffs as a list with distinct keys has distinct keys.
proof fn lemma_same_diffs_distinct(s1: Seq<PrivilegesDiffView>, s2: Seq<PrivilegesDiffView>)
    requires
        distinct_diff_keys(s1),
        s2.no_duplicates(),
        s1.to_set() == s2.to_set(),
    ensures
        distinct_diff_keys(s2),
{
    assert forall|i: int, j: int| 0 <= i < j < s2.len() implies diff_key(#[trigger] s2[i])
        != diff_key(#[trigger] s2[j]) by {
        assert(s2.to_set().contains(s2[i]));
        assert(s2.to_set().contains(s2[j]));
        assert(s1.contains(s2[i]));
        assert(s1.contains(s2[j]));
        let a = choose|a: int| 0 <= a < s1.len() && s1[a] == s2[i];
        let b = choose|b: int| 0 <= b < s1.len() && s1[b] == s2[j];
        assert(s2[i] != s2[j]);
        if a < b {
            assert(diff_key(s1[a]) != diff_key(s1[b]));
        } else {
            assert(diff_key(s1[b]) != diff_key(s1[a]));
        }
    }
}

/// With unique keys on both sides, the diffs between two lists of rows have distinct keys,
/// each diff once.
proof fn lemma_privilege_diffs_distinct(fv: Seq<PrivilegeRowView>, tv: Seq<PrivilegeRowView>)
    requires
        unique_keys(fv),
        unique_keys(tv),
    ensures
        privilege_diffs(fv, tv) == diffs_for_target(fv, tv) + deletions(fv, tv),
        distinct_diff_keys(privilege_diffs(fv, tv)),
        privilege_diffs(fv, tv).no_duplicates(),
{
    let a = diffs_for_target(fv, tv);
    let b = deletions(fv, tv);
    let s = a + b;
    lemma_target_keys(fv, tv);
    lemma_deletion_keys(fv, tv);
    assert(distinct_diff_keys(s)) by {
        assert forall|i: int, j: int| 0 <= i < j < s.len() implies diff_key(#[trigger] s[i])
            != diff_key(#[trigger] s[j]) by {
            if j < a.len() {
                assert(diff_key(a[i]) != diff_key(a[j]));
            } else if i >= a.len() {
                assert(diff_key(b[i - a.len()]) != diff_key(b[j - a.len()]));
            } else {
                assert(lookup(tv, diff_key(a[i])) is Some);
                assert(lookup(tv, diff_key(b[j - a.len()])) is None);
            }
        }
    }
    assert(s.no_duplicates()) by {
        assert forall|i: int, j: int| 0 <= i < s.len() && 0 <= j < s.len() && i != j implies s[i]
            != s[j] by {
            if i < j {
                assert(diff_key(s[i]) != diff_key(s[j]));
            } else {
                assert(diff_key(s[j]) != diff_key(s[i]));
            }
        }
    }
    lemma_dedup_no_duplicates(s);
}

/// The diffs that `diff_privileges` computes take `from` to `to`: applied in order to the
/// state of any key in `from`, they give its state in `to`. `ds` is any list that holds
/// those diffs, each once, in any order (`diff_privileges` returns them sorted). This holds
/// when neither list has two rows with the same database and user.
pub proof fn lemma_diff_privileges_reconstructs(
    from: Seq<DatabasePrivilegeRow>,
    to: Seq<DatabasePrivilegeRow>,
    ds: Seq<PrivilegesDiffView>,
)
    requires
        unique_keys(rows_view(from)),
        unique_keys(rows_view(to)),
        ds.no_duplicates(),
        ds.to_set() == privilege_diffs(rows_view(from), rows_view(to)).to_set(),
    ensures
        forall|k: RowKey|
            #![trigger state_of(rows_view(to), k)]
            apply_diffs(Some(state_of(rows_view(from), k)), ds, k) == Some(state_of(rows_view(to), k)),
{
    let fv = rows_view(from);
    let tv = rows_view(to);
    assert(well_formed_rows(fv));
    assert(well_formed_rows(tv));
    let a = diffs_for_target(fv, tv);
    let b = deletions(fv, tv);
    lemma_privilege_diffs_distinct(fv, tv);
    assert forall|k: RowKey| #![trigger state_of(rows_view(to), k)]
        apply_diffs(Some(state_of(fv, k)), ds, k) == Some(state_of(tv, k)) by {
        lemma_apply_concat(Some(state_of(fv, k)), a, b, k);
        lemma_target_effect(fv, tv, k);
        let x = if lookup(tv, k) is Some {
            state_of(tv, k)
        } else {
            state_of(fv, k)
        };
        lemma_deletions_effect(fv, tv, k, x);
        lemma_apply_same_diffs(Some(state_of(fv, k)), privilege_diffs(fv, tv), ds, k);
    }
}

/// Merging a diff into another has the effect of applying the first and then the second, on
/// every state on which both apply in turn. The one exception is a deletion followed by a
/// creation, which the merge keeps as the deletion.
pub proof fn lemma_mappend_composes(a: PrivilegesDiffView, b: PrivilegesDiffView, s: KeyState)
    requires
        diff_effect(a, s) matches Some(s1) && diff_effect(b, s1) is Some,
        !(a is Deleted && b is New),
        a is Modified ==> a->Modified_0.2.len() == 11,
        b is Modified ==> b->Modified_0.2.len() == 11,
        s matches Some(p) ==> p.len() == 11,
        a is New ==> a->New_0.2.len() == 11,
    ensures
        diff_mappend(a, b) matches Ok(c) && diff_effect(c, s) == diff_effect(
            b,
            diff_effect(a, s)->Some_0,
        ),
{
    match (a, b) {
        (PrivilegesDiffView::Modified(m1), PrivilegesDiffView::Modified(m2)) => {
            let p = s->Some_0;
            let cs = mappend_changes(m1.2, m2.2);
            assert(apply_changes(cs, p) =~= apply_changes(m2.2, apply_changes(m1.2, p)));
            if no_changes(cs) {
                assert(apply_changes(cs, p) =~= p);
            }
        },
        (PrivilegesDiffView::New(r), PrivilegesDiffView::Modified(m)) => {
        },
        _ => {
        },
    }
}

/// The last requested change for a key.
pub open spec fn lookup_row_diff(ds: Seq<RowDiffView>, k: RowKey) -> Option<RowDiffView>
    decreases ds.len(),
{
    if ds.len() == 0 {
        None
    } else if (ds.last().0, ds.last().1) == k {
        Some(ds.last())
    } else {
        lookup_row_diff(ds.drop_last(), k)
    }
}

/// Whether no two requested changes are about the same key.
pub open spec fn unique_diff_keys(ds: Seq<RowDiffView>) -> bool {
    forall|i: int, j: int|
        0 <= i < j < ds.len() ==> (#[trigger] ds[i].0, ds[i].1) != (#[trigger] ds[j].0, ds[j].1)
}

/// The state that a key should reach: the requested changes applied to its row, or to a row
/// without privileges when there is none; unchanged when nothing is requested for it.
pub open spec fn requested_state(from: Seq<PrivilegeRowView>, to: Seq<RowDiffView>, k: RowKey) -> KeyState {
    match lookup_row_diff(to, k) {
        Some(d) => Some(
            apply_changes(
                d.2,
                match state_of(from, k) {
                    Some(p) => p,
                    None => no_privileges(),
                },
            ),
        ),
        None => state_of(from, k),
    }
}

/// Keeping only the changes that have an effect does not change what they do.
pub proof fn lemma_effective_changes_apply(cs: Seq<Option<DatabasePrivilegeChange>>, p: Seq<bool>)
    requires
        p.len() == 11,
    ensures
        apply_changes(effective_changes(cs, p), p) == apply_changes(cs, p),
        no_changes(effective_changes(cs, p)) ==> apply_changes(cs, p) == p,
{
    assert(apply_changes(effective_changes(cs, p), p) =~= apply_changes(cs, p));
    if no_changes(effective_changes(cs, p)) {
        assert forall|i: int| 0 <= i < 11 implies apply_changes(cs, p)[i] == p[i] by {
            assert(effective_changes(cs, p)[i] is None);
        }
        assert(apply_changes(cs, p) =~= p);
    }
}

proof fn lemma_requested_keys(from: Seq<PrivilegeRowView>, to: Seq<RowDiffView>)
    ensures
        forall|i: int|
            0 <= i < create_or_modify_diffs(from, to).len() ==> lookup_row_diff(
                to,
                diff_key(#[trigger] create_or_modify_diffs(from, to)[i]),
            ) is Some,
        unique_diff_keys(to) ==> forall|i: int, j: int|
            0 <= i < j < create_or_modify_diffs(from, to).len() ==> diff_key(
                #[trigger] create_or_modify_diffs(from, to)[i],
            ) != diff_key(#[trigger] create_or_modify_diffs(from, to)[j]),
    decreases to.len(),
{
    if to.len() > 0 {
        let d = to.last();
        let dl = to.drop_last();
        lemma_requested_keys(from, dl);
        let prev = create_or_modify_diffs(from, dl);
        let cur = create_or_modify_diffs(from, to);
        assert forall|i: int| 0 <= i < prev.len() implies lookup_row_diff(to, diff_key(#[trigger] prev[i]))
            is Some by {
            if (d.0, d.1) != diff_key(prev[i]) {
            }
        }
        if unique_diff_keys(to) {
            assert(unique_diff_keys(dl)) by {
                assert forall|i: int, j: int| 0 <= i < j < dl.len() implies (#[trigger] dl[i].0, dl[i].1) != (#[trigger] dl[j].0, dl[j].1) by {
                    assert(dl[i] == to[i] && dl[j] == to[j]);
                }
            }
            lemma_lookup_row_diff_absent(to);
        }
        if cur.len() > prev.len() {
            assert(cur.drop_last() =~= prev);
            assert forall|i: int| 0 <= i < cur.len() implies lookup_row_diff(to, diff_key(#[trigger] cur[i]))
                is Some by {
                if i < prev.len() {
                    assert(cur[i] == prev[i]);
                }
            }
            if unique_diff_keys(to) {
                assert forall|i: int, j: int| 0 <= i < j < cur.len() implies diff_key(
                    #[trigger] cur[i],
                ) != diff_key(#[trigger] cur[j]) by {
                    assert(cur[i] == prev[i]);
                    if j < prev.len() {
                        assert(cur[j] == prev[j]);
                    } else {
                        assert(lookup_row_diff(dl, diff_key(prev[i])) is Some);
                    }
                }
            }
        } else {
            assert(cur =~= prev);
        }
    }
}

/// With unique keys, the key of the last requested change does not occur before it.
proof fn lemma_lookup_row_diff_absent(ds: Seq<RowDiffView>)
    requires
        unique_diff_keys(ds),
        ds.len() > 0,
    ensures
        lookup_row_diff(ds.drop_last(), (ds.last().0, ds.last().1)) is None,
{
    let k = (ds.last().0, ds.last().1);
    assert forall|n: int| 0 <= n <= ds.len() - 1 implies lookup_row_diff(ds.take(n), k) is None by {
        lemma_lookup_row_diff_prefix_absent(ds, n);
    }
    assert(ds.take(ds.len() - 1) =~= ds.drop_last());
}

proof fn lemma_lookup_row_diff_prefix_absent(ds: Seq<RowDiffView>, n: int)
    requires
        unique_diff_keys(ds),
        ds.len() > 0,
        0 <= n <= ds.len() - 1,
    ensures
        lookup_row_diff(ds.take(n), (ds.last().0, ds.last().1)) is None,
    decreases n,
{
    if n > 0 {
        let t = ds.take(n);
        assert(t.last() == ds[n - 1]);
        assert(ds.last() == ds[ds.len() - 1]);
        assert(t.drop_last() =~= ds.take(n - 1));
        lemma_lookup_row_diff_prefix_absent(ds, n - 1);
    }
}

proof fn lemma_requested_effect(from: Seq<PrivilegeRowView>, to: Seq<RowDiffView>, k: RowKey)
    requires
        unique_diff_keys(to),
        well_formed_rows(from),
    ensures
        apply_diffs(Some(state_of(from, k)), create_or_modify_diffs(from, to), k) == Some(
            requested_state(from, to, k),
        ),
    decreases to.len(),
{
    if to.len() > 0 {
        let d = to.last();
        let dl = to.drop_last();
        lemma_lookup_row_diff_absent(to);
        assert(unique_diff_keys(dl)) by {
            assert forall|i: int, j: int| 0 <= i < j < dl.len() implies (#[trigger] dl[i].0, dl[i].1) != (#[trigger] dl[j].0, dl[j].1) by {
                assert(dl[i] == to[i] && dl[j] == to[j]);
            }
        }
        lemma_requested_effect(from, dl, k);
        let prev = create_or_modify_diffs(from, dl);
        lemma_lookup_key(from, (d.0, d.1));
        lemma_lookup_well_formed(from, (d.0, d.1));
        match lookup(from, (d.0, d.1)) {
            Some(old) => {
                lemma_effective_changes_apply(d.2, old.2);
                let cs = effective_changes(d.2, old.2);
                if !no_changes(cs) {
                    assert(prev.push(PrivilegesDiffView::Modified((d.0, d.1, cs))).drop_last() =~= prev);
                }
            },
            None => {
                let nd = PrivilegesDiffView::New((d.0, d.1, apply_changes(d.2, no_privileges())));
                assert(prev.push(nd).drop_last() =~= prev);
            },
        }
    }
}

/// The diffs that `create_or_modify_privilege_rows` computes carry out the requested changes:
/// applied in order to the state of any key in `from`, they give the requested changes applied
/// to its row (or to a row without privileges, when `from` has none), and leave keys without a
/// request unchanged. `ds` is any list that holds those diffs, each once, in any order. This
/// holds when no two requests are about the same database and user.
pub proof fn lemma_create_or_modify_carries_out_requests(
    from: Seq<DatabasePrivilegeRow>,
    to: Seq<DatabasePrivilegeRowDiff>,
    ds: Seq<PrivilegesDiffView>,
)
    requires
        unique_diff_keys(row_diffs_view(to)),
        ds.no_duplicates(),
        ds.to_set() == dedup(create_or_modify_diffs(rows_view(from), row_diffs_view(to))).to_set(),
    ensures
        forall|k: RowKey|
            #![trigger requested_state(rows_view(from), row_diffs_view(to), k)]
            apply_diffs(Some(state_of(rows_view(from), k)), ds, k) == Some(
                requested_state(rows_view(from), row_diffs_view(to), k),
            ),
{
    let fv = rows_view(from);
    let tv = row_diffs_view(to);
    assert(well_formed_rows(fv));
    let a = create_or_modify_diffs(fv, tv);
    lemma_requested_keys(fv, tv);
    assert(distinct_diff_keys(a)) by {
        assert forall|i: int, j: int| 0 <= i < j < a.len() implies diff_key(#[trigger] a[i])
            != diff_key(#[trigger] a[j]) by {
            assert(diff_key(a[i]) != diff_key(a[j]));
        }
    }
    assert(a.no_duplicates()) by {
        assert forall|i: int, j: int| 0 <= i < a.len() && 0 <= j < a.len() && i != j implies a[i] != a[j] by {
            if i < j {
                assert(diff_key(a[i]) != diff_key(a[j]));
            } else {
                assert(diff_key(a[j]) != diff_key(a[i]));
            }
        }
    }
    lemma_dedup_no_duplicates(a);
    assert forall|k: RowKey| #![trigger requested_state(rows_view(from), row_diffs_view(to), k)]
        apply_diffs(Some(state_of(fv, k)), ds, k) == Some(requested_state(fv, tv, k)) by {
        lemma_requested_effect(fv, tv, k);
        lemma_apply_same_diffs(Some(state_of(fv, k)), a, ds, k);
    }
}


/// Each diff for the rows of `to` has something to do, and reducing it against `from` leaves
/// it as it is.
proof fn lemma_target_reduced(from: Seq<PrivilegeRowView>, to: Seq<PrivilegeRowView>)
    ensures
        forall|i: int|
            0 <= i < diffs_for_target(from, to).len() ==> !(#[trigger] diffs_for_target(from, to)[i] is Noop)
                && reduced_diff(from, diffs_for_target(from, to)[i]) == diffs_for_target(from, to)[i],
    decreases to.len(),
{
    if to.len() > 0 {
        let p = to.last();
        let dl = to.drop_last();
        lemma_target_reduced(from, dl);
        lemma_lookup_key(from, row_key(p));
        let prev = diffs_for_target(from, dl);
        let cur = diffs_for_target(from, to);
        match lookup(from, row_key(p)) {
            Some(old) => {
                let cs = changes_between(old.2, p.2);
                if no_changes(cs) {
                    assert(cur =~= prev);
                } else {
                    let d = PrivilegesDiffView::Modified((old.0, old.1, cs));
                    assert(cur == prev.push(d));
                    assert(effective_changes(cs, old.2) =~= cs);
                    assert((old.0, old.1) == row_key(p));
                    assert(reduced_diff(from, d) == d);
                    assert forall|i: int| 0 <= i < cur.len() implies !(#[trigger] cur[i] is Noop)
                        && reduced_diff(from, cur[i]) == cur[i] by {
                        if i < prev.len() {
                            assert(cur[i] == prev[i]);
                        }
                    }
                }
            },
            None => {
                let d = PrivilegesDiffView::New(p);
                assert(cur == prev.push(d));
                assert forall|i: int| 0 <= i < cur.len() implies !(#[trigger] cur[i] is Noop)
                    && reduced_diff(from, cur[i]) == cur[i] by {
                    if i < prev.len() {
                        assert(cur[i] == prev[i]);
                    }
                }
            },
        }
    }
}

/// The deletions are all deletions.
proof fn lemma_deletions_are_deletions(f: Seq<PrivilegeRowView>, to: Seq<PrivilegeRowView>)
    ensures
        forall|i: int| 0 <= i < deletions(f, to).len() ==> #[trigger] deletions(f, to)[i] is Deleted,
    decreases f.len(),
{
    if f.len() > 0 {
        lemma_deletions_are_deletions(f.drop_last(), to);
        let prev = deletions(f.drop_last(), to);
        let cur = deletions(f, to);
        if lookup(to, row_key(f.last())) is None {
            assert forall|i: int| 0 <= i < cur.len() implies #[trigger] cur[i] is Deleted by {
                if i < prev.len() {
                    assert(cur[i] == prev[i]);
                }
            }
        }
    }
}

/// Merging diffs with distinct keys keeps each as it is.
proof fn lemma_merge_distinct(s: Seq<PrivilegesDiffView>)
    requires
        distinct_diff_keys(s),
    ensures
        merge_diffs(s) == Ok::<Map<RowKey, PrivilegesDiffView>, Seq<char>>(keys_map(s)),
    decreases s.len(),
{
    if s.len() > 0 {
        let dl = s.drop_last();
        assert(distinct_diff_keys(dl)) by {
            assert forall|i: int, j: int| 0 <= i < j < dl.len() implies diff_key(#[trigger] dl[i])
                != diff_key(#[trigger] dl[j]) by {
                assert(dl[i] == s[i] && dl[j] == s[j]);
            }
        }
        lemma_merge_distinct(dl);
        lemma_keys_map(dl);
        let k = diff_key(s.last());
        assert(!keys_map(dl).contains_key(k)) by {
            if keys_map(dl).contains_key(k) {
                let i = choose|i: int| 0 <= i < dl.len() && diff_key(dl[i]) == k;
                assert(dl[i] == s[i]);
                assert(s.last() == s[s.len() - 1]);
            }
        }
        assert(merged_at(keys_map(dl), k) == PrivilegesDiffView::Noop(k.0, k.1));
    }
}

/// Reducing the diffs that `diff_privileges` computes, against the rows they were computed
/// from, gives those same diffs: merging them per key fails nowhere, and each is left as it is.
/// `ds` is any list that holds those diffs, each once, in any order (`diff_privileges` returns
/// them sorted). This holds when neither list has two rows with the same database and user.
pub proof fn lemma_reduce_of_diff_privileges(
    from: Seq<DatabasePrivilegeRow>,
    to: Seq<DatabasePrivilegeRow>,
    ds: Seq<PrivilegesDiffView>,
)
    requires
        unique_keys(rows_view(from)),
        unique_keys(rows_view(to)),
        ds.no_duplicates(),
        ds.to_set() == privilege_diffs(rows_view(from), rows_view(to)).to_set(),
    ensures
        merge_diffs(ds) matches Ok(m) && reduced_diffs(rows_view(from), m) == ds.to_set(),
{
    let fv = rows_view(from);
    let tv = rows_view(to);
    let a = diffs_for_target(fv, tv);
    let b = deletions(fv, tv);
    let s = a + b;
    lemma_privilege_diffs_distinct(fv, tv);
    lemma_target_reduced(fv, tv);
    lemma_deletions_are_deletions(fv, tv);
    lemma_same_diffs_distinct(s, ds);
    lemma_merge_distinct(ds);
    lemma_keys_map(ds);
    let km = keys_map(ds);
    assert forall|i: int| 0 <= i < ds.len() implies !(#[trigger] ds[i] is Noop) && reduced_diff(fv, ds[i])
        == ds[i] by {
        assert(ds.to_set().contains(ds[i]));
        assert(s.contains(ds[i]));
        let x = choose|x: int| 0 <= x < s.len() && s[x] == ds[i];
        if x < a.len() {
            assert(s[x] == a[x]);
        } else {
            assert(s[x] == b[x - a.len()]);
        }
    }
    assert forall|d: PrivilegesDiffView| reduced_diffs(fv, km).contains(d) <==> ds.to_set().contains(d) by {
        if reduced_diffs(fv, km).contains(d) {
            let k = choose|k: RowKey| #![trigger km[k]] km.contains_key(k) && reduced_diff(fv, km[k]) == d;
            let i = choose|i: int| 0 <= i < ds.len() && diff_key(ds[i]) == k;
            assert(km[diff_key(ds[i])] == ds[i]);
            assert(ds.contains(d));
        }
        if ds.to_set().contains(d) {
            let i = choose|i: int| 0 <= i < ds.len() && ds[i] == d;
            let k = diff_key(ds[i]);
            assert(km[k] == ds[i]);
            assert(km.contains_key(k));
            assert(reduced_diffs(fv, km).contains(d));
        }
    }
    assert(reduced_diffs(fv, km) =~= ds.to_set());
}

} // verus!
