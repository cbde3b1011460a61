//! The order of privilege diffs, as their derived `Ord` has it: by kind (creations, then
//! modifications, deletions, and nothing to do), then by database name, user name, and the
//! privileges or changes in field order; and sorting diffs by it.
use vstd::prelude::*;

use crate::muscl_core::database_privileges::diff::{
    diff_key, diffs_view, DatabasePrivilegeChange, DatabasePrivilegesDiff, PrivilegesDiffView,
};
use crate::text::{lex_lt, str_lt};

verus! {

/// Whether `a` comes strictly before `b`: by the first element where they differ, or the
/// shorter first when one starts the other.
pub open spec fn int_seq_lt(a: Seq<int>, b: Seq<int>) -> bool
    decreases a.len(),
{
    if b.len() == 0 {
        false
    } else if a.len() == 0 {
        true
    } else if a[0] != b[0] {
        a[0] < b[0]
    } else {
        int_seq_lt(a.drop_first(), b.drop_first())
    }
}

proof fn lemma_int_seq_lt_asym(a: Seq<int>, b: Seq<int>)
    ensures
        int_seq_lt(a, b) ==> !int_seq_lt(b, a),
    decreases a.len(),
{
    if a.len() > 0 && b.len() > 0 && a[0] == b[0] {
        lemma_int_seq_lt_asym(a.drop_first(), b.drop_first());
    }
}

proof fn lemma_int_seq_lt_trans(a: Seq<int>, b: Seq<int>, c: Seq<int>)
    requires
        int_seq_lt(a, b),
        int_seq_lt(b, c),
    ensures
        int_seq_lt(a, c),
    decreases a.len(),
{
    if a.len() > 0 && a[0] == b[0] && b[0] == c[0] {
        lemma_int_seq_lt_trans(a.drop_first(), b.drop_first(), c.drop_first());
    }
}

proof fn lemma_lex_lt_asym(a: Seq<char>, b: Seq<char>)
    ensures
        lex_lt(a, b) ==> !lex_lt(b, a),
    decreases a.len(),
{
    if a.len() > 0 && b.len() > 0 && a[0] == b[0] {
        lemma_lex_lt_asym(a.drop_first(), b.drop_first());
    }
}

proof fn lemma_lex_lt_trans(a: Seq<char>, b: Seq<char>, c: Seq<char>)
    requires
        lex_lt(a, b),
        lex_lt(b, c),
    ensures
        lex_lt(a, c),
    decreases a.len(),
{
    if a.len() > 0 && a[0] == b[0] && b[0] == c[0] {
        lemma_lex_lt_trans(a.drop_first(), b.drop_first(), c.drop_first());
    }
}

/// The place of a privilege in the order: `false` before `true`.
pub open spec fn bool_rank(b: bool) -> int {
    if b {
        1
    } else {
        0
    }
}

/// The place of a change in the order: none, then `YesToNo`, then `NoToYes`.
pub open spec fn change_rank(c: Option<DatabasePrivilegeChange>) -> int {
    match c {
        None => 0,
        Some(DatabasePrivilegeChange::YesToNo) => 1,
        Some(DatabasePrivilegeChange::NoToYes) => 2,
    }
}

/// The place of the kind of a diff in the order.
pub open spec fn diff_rank(d: PrivilegesDiffView) -> int {
    match d {
        PrivilegesDiffView::New(_) => 0,
        PrivilegesDiffView::Modified(_) => 1,
        PrivilegesDiffView::Deleted(_) => 2,
        PrivilegesDiffView::Noop(_, _) => 3,
    }
}

/// The places of privileges in the order.
pub open spec fn bools_ranks(p: Seq<bool>) -> Seq<int> {
    p.map_values(|b: bool| bool_rank(b))
}

/// The places of changes in the order.
pub open spec fn changes_ranks(cs: Seq<Option<DatabasePrivilegeChange>>) -> Seq<int> {
    cs.map_values(|c: Option<DatabasePrivilegeChange>| change_rank(c))
}

/// What a diff is ordered by after its names: its privileges or its changes, in field order.
pub open spec fn diff_rest(d: PrivilegesDiffView) -> Seq<int> {
    match d {
        PrivilegesDiffView::New(r) => bools_ranks(r.2),
        PrivilegesDiffView::Modified(m) => changes_ranks(m.2),
        PrivilegesDiffView::Deleted(r) => bools_ranks(r.2),
        PrivilegesDiffView::Noop(_, _) => Seq::empty(),
    }
}

/// Whether diff `a` comes strictly before diff `b`: by kind, then database name, then user
/// name, then privileges or changes.
pub open spec fn diff_lt(a: PrivilegesDiffView, b: PrivilegesDiffView) -> bool {
    let ka = diff_key(a);
    let kb = diff_key(b);
    if diff_rank(a) != diff_rank(b) {
        diff_rank(a) < diff_rank(b)
    } else if ka.0 != kb.0 {
        lex_lt(ka.0, kb.0)
    } else if ka.1 != kb.1 {
        lex_lt(ka.1, kb.1)
    } else {
        int_seq_lt(diff_rest(a), diff_rest(b))
    }
}

/// Whether no diff comes strictly before one earlier in the list.
pub open spec fn sorted_diffs(s: Seq<PrivilegesDiffView>) -> bool {
    forall|i: int, j: int| 0 <= i < j < s.len() ==> !diff_lt(#[trigger] s[j], #[trigger] s[i])
}

proof fn lemma_diff_lt_asym(a: PrivilegesDiffView, b: PrivilegesDiffView)
    ensures
        diff_lt(a, b) ==> !diff_lt(b, a),
{
    lemma_lex_lt_asym(diff_key(a).0, diff_key(b).0);
    lemma_lex_lt_asym(diff_key(a).1, diff_key(b).1);
    lemma_int_seq_lt_asym(diff_rest(a), diff_rest(b));
}

proof fn lemma_diff_lt_trans(a: PrivilegesDiffView, b: PrivilegesDiffView, c: PrivilegesDiffView)
    requires
        diff_lt(a, b),
        diff_lt(b, c),
    ensures
        diff_lt(a, c),
{
    let (ka, kb, kc) = (diff_key(a), diff_key(b), diff_key(c));
    if diff_rank(a) == diff_rank(b) && diff_rank(b) == diff_rank(c) {
        if ka.0 != kb.0 && kb.0 != kc.0 {
            lemma_lex_lt_trans(ka.0, kb.0, kc.0);
            lemma_lex_lt_asym(ka.0, kb.0);
        } else if ka.0 == kb.0 && kb.0 == kc.0 {
            if ka.1 != kb.1 && kb.1 != kc.1 {
                lemma_lex_lt_trans(ka.1, kb.1, kc.1);
                lemma_lex_lt_asym(ka.1, kb.1);
            } else if ka.1 == kb.1 && kb.1 == kc.1 {
                lemma_int_seq_lt_trans(diff_rest(a), diff_rest(b), diff_rest(c));
            }
        }
    }
}

/// Whether diff `a` comes strictly before diff `b`.
pub fn diff_lt_exec(a: &DatabasePrivilegesDiff, b: &DatabasePrivilegesDiff) -> (r: bool)
    ensures
        r == diff_lt(a@, b@),
{
    let ra = rank_of(a);
    let rb = rank_of(b);
    if ra != rb {
        return ra < rb;
    }
    let (da, db) = (a.get_database_name(), b.get_database_name());
    if !da.same_name(db) {
        return str_lt(da.as_str(), db.as_str());
    }
    let (ua, ub) = (a.get_user_name(), b.get_user_name());
    if !ua.same_name(ub) {
        return str_lt(ua.as_str(), ub.as_str());
    }
    let xa = rest_of(a);
    let xb = rest_of(b);
    ranks_lt(&xa, &xb)
}

fn rank_of(d: &DatabasePrivilegesDiff) -> (r: u8)
    ensures
        r as int == diff_rank(d@),
{
    match d {
        DatabasePrivilegesDiff::New(_) => 0,
        DatabasePrivilegesDiff::Modified(_) => 1,
        DatabasePrivilegesDiff::Deleted(_) => 2,
        DatabasePrivilegesDiff::Noop { .. } => 3,
    }
}

/// Small numbers seen as integers.
pub open spec fn ranks_view(v: Seq<u8>) -> Seq<int> {
    v.map_values(|x: u8| x as int)
}

fn rest_of(d: &DatabasePrivilegesDiff) -> (r: Vec<u8>)
    ensures
        ranks_view(r@) == diff_rest(d@),
{
    let mut v: Vec<u8> = Vec::new();
    match d {
        DatabasePrivilegesDiff::New(row) | DatabasePrivilegesDiff::Deleted(row) => {
            let mut i: usize = 0;
            while i < 11
                invariant
                    i <= 11,
                    ranks_view(v@) == bools_ranks(row@.2.take(i as int)),
                decreases 11 - i,
            {
                let x: u8 = if row.privilege_at(i) { 1 } else { 0 };
                let ghost old_v = ranks_view(v@);
                v.push(x);
                assert(ranks_view(v@) =~= old_v.push(x as int));
                assert(bools_ranks(row@.2.take(i + 1)) =~= bools_ranks(row@.2.take(i as int)).push(bool_rank(row@.2[i as int])));
                i = i + 1;
            }
            assert(row@.2.take(11) =~= row@.2);
        },
        DatabasePrivilegesDiff::Modified(m) => {
            let mut i: usize = 0;
            while i < 11
                invariant
                    i <= 11,
                    ranks_view(v@) == changes_ranks(m@.2.take(i as int)),
                decreases 11 - i,
            {
                let x: u8 = match m.change_at(i) {
                    None => 0,
                    Some(DatabasePrivilegeChange::YesToNo) => 1,
                    Some(DatabasePrivilegeChange::NoToYes) => 2,
                };
                let ghost old_v = ranks_view(v@);
                v.push(x);
                assert(ranks_view(v@) =~= old_v.push(x as int));
                assert(changes_ranks(m@.2.take(i + 1)) =~= changes_ranks(m@.2.take(i as int)).push(change_rank(m@.2[i as int])));
                i = i + 1;
            }
            assert(m@.2.take(11) =~= m@.2);
        },
        DatabasePrivilegesDiff::Noop { .. } => {
            assert(ranks_view(v@) =~= Seq::<int>::empty());
        },
    }
    v
}

fn ranks_lt(a: &Vec<u8>, b: &Vec<u8>) -> (r: bool)
    ensures
        r == int_seq_lt(ranks_view(a@), ranks_view(b@)),
{
    let ghost ka = ranks_view(a@);
    let ghost kb = ranks_view(b@);
    let mut i: usize = 0;
    assert(ka.skip(0) =~= ka);
    assert(kb.skip(0) =~= kb);
    while i < a.len() && i < b.len()
        invariant
            ka == ranks_view(a@),
            kb == ranks_view(b@),
            i <= a@.len(),
            i <= b@.len(),
            int_seq_lt(ka, kb) == int_seq_lt(ka.skip(i as int), kb.skip(i as int)),
        decreases a@.len() - i,
    {
        let ghost sa = ka.skip(i as int);
        let ghost sb = kb.skip(i as int);
        assert(sa[0] == a@[i as int] as int && sb[0] == b@[i as int] as int);
        if a[i] != b[i] {
            return a[i] < b[i];
        }
        assert(sa.drop_first() =~= ka.skip(i + 1));
        assert(sb.drop_first() =~= kb.skip(i + 1));
        i = i + 1;
    }
    i < b.len()
}

/// The diffs in order, each put before the first one it comes strictly before. The result
/// holds the same diffs, as many of them, and no diff comes strictly before an earlier one.
pub fn sort_privilege_diffs(v: Vec<DatabasePrivilegesDiff>) -> (r: Vec<DatabasePrivilegesDiff>)
    ensures
        r@.len() == v@.len(),
        diffs_view(r@).to_set() == diffs_view(v@).to_set(),
        diffs_view(v@).no_duplicates() ==> diffs_view(r@).no_duplicates(),
        sorted_diffs(diffs_view(r@)),
{
    let ghost vv = diffs_view(v@);
    let mut out: Vec<DatabasePrivilegesDiff> = Vec::new();
    let mut i: usize = 0;
    while i < v.len()
        invariant
            i <= v@.len(),
            vv == diffs_view(v@),
            out@.len() == i,
            diffs_view(out@).to_set() == vv.take(i as int).to_set(),
            vv.no_duplicates() ==> diffs_view(out@).no_duplicates(),
            sorted_diffs(diffs_view(out@)),
        decreases v@.len() - i,
    {
        let x = v[i].clone();
        let ghost before = diffs_view(out@);
        let mut p: usize = 0;
        while p < out.len() && !diff_lt_exec(&x, &out[p])
            invariant
                p <= out@.len(),
                before == diffs_view(out@),
                forall|k: int| 0 <= k < p ==> !diff_lt(x@, #[trigger] before[k]),
            decreases out@.len() - p,
        {
            p = p + 1;
        }
        out.insert(p, x.clone());
        let ghost now = diffs_view(out@);
        proof {
            assert(now =~= before.insert(p as int, x@));
            assert(vv.take(i + 1) =~= vv.take(i as int).push(x@));
            assert(now.to_set() =~= before.to_set().insert(x@)) by {
                assert forall|d: PrivilegesDiffView| now.to_set().contains(d) implies before.to_set().insert(x@).contains(d) by {
                    let k = choose|k: int| 0 <= k < now.len() && now[k] == d;
                    if k < p {
                        assert(now[k] == before[k]);
                    } else if k > p {
                        assert(now[k] == before[k - 1]);
                    }
                }
                assert forall|d: PrivilegesDiffView| before.to_set().insert(x@).contains(d) implies now.to_set().contains(d) by {
                    if d == x@ {
                        assert(now[p as int] == x@);
                    } else {
                        let k = choose|k: int| 0 <= k < before.len() && before[k] == d;
                        if k < p {
                            assert(now[k] == before[k]);
                        } else {
                            assert(now[k + 1] == before[k]);
                        }
                    }
                }
            }
            assert(vv.take(i + 1).to_set() =~= vv.take(i as int).to_set().insert(x@)) by {
                let t = vv.take(i + 1);
                let t0 = vv.take(i as int);
                assert(t[i as int] == x@);
                assert forall|d: PrivilegesDiffView| t.to_set().contains(d) implies t0.to_set().insert(x@).contains(d) by {
                    let k = choose|k: int| 0 <= k < t.len() && t[k] == d;
                    if k < i {
                        assert(t0[k] == t[k]);
                    }
                }
                assert forall|d: PrivilegesDiffView| t0.to_set().insert(x@).contains(d) implies t.to_set().contains(d) by {
                    if d != x@ {
                        let k = choose|k: int| 0 <= k < t0.len() && t0[k] == d;
                        assert(t[k] == t0[k]);
                    }
                }
            }
            if vv.no_duplicates() {
                assert(!before.contains(x@)) by {
                    if before.contains(x@) {
                        let k = choose|k: int| 0 <= k < before.len() && before[k] == x@;
                        assert(before.to_set().contains(x@));
                        assert(vv.take(i as int).to_set().contains(x@));
                        let j = choose|j: int| 0 <= j < vv.take(i as int).len() && vv.take(i as int)[j] == x@;
                        assert(vv[j] == vv[i as int]);
                    }
                }
                assert forall|a: int, b: int| 0 <= a < now.len() && 0 <= b < now.len() && a != b implies now[a] != now[b] by {
                    if a != p && b != p {
                        let a2 = if a < p { a } else { a - 1 };
                        let b2 = if b < p { b } else { b - 1 };
                        assert(now[a] == before[a2]);
                        assert(now[b] == before[b2]);
                    } else if a == p {
                        let b2 = if b < p { b } else { b - 1 };
                        assert(now[b] == before[b2]);
                    } else {
                        let a2 = if a < p { a } else { a - 1 };
                        assert(now[a] == before[a2]);
                    }
                }
            }
            assert forall|a: int, b: int| 0 <= a < b < now.len() implies !diff_lt(#[trigger] now[b], #[trigger] now[a]) by {
                if b < p {
                    assert(now[a] == before[a] && now[b] == before[b]);
                } else if b == p {
                    assert(now[a] == before[a]);
                } else if a == p {
                    // x comes before before[p], which is not after before[b - 1]
                    assert(now[b] == before[b - 1]);
                    assert(diff_lt(x@, before[p as int]));
                    lemma_diff_lt_asym(x@, before[p as int]);
                    if diff_lt(before[b - 1], x@) {
                        lemma_diff_lt_trans(before[b - 1], x@, before[p as int]);
                        if b - 1 > p {
                            assert(!diff_lt(before[b - 1], before[p as int]));
                        }
                    }
                } else if a < p {
                    assert(now[a] == before[a] && now[b] == before[b - 1]);
                } else {
                    assert(now[a] == before[a - 1] && now[b] == before[b - 1]);
                }
            }
        }
        i = i + 1;
    }
    assert(vv.take(v@.len() as int) =~= vv);
    out
}

} // verus!
