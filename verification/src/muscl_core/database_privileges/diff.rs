//! Comparing sets of database privileges: the change of a single privilege, the changes of one
//! row, whether a row is created, modified or deleted, and how such diffs combine.
use vstd::prelude::*;
use vstd::string::*;

use crate::muscl_core::database_privileges::base::{
    row_display, database_privilege_field, db_priv_field_human_readable_name, human_readable_name,
    privilege_index, privilege_index_of, privilege_name, DatabasePrivilegeRow, PrivilegeRowView,
    lemma_seq11_ext,
};
use crate::muscl_core::database_privileges::order::{sort_privilege_diffs, sorted_diffs};
use crate::muscl_core::types::{MySQLDatabase, MySQLUser};
use crate::table::{cells_view, draw_table, drawn_table, strings_view};
use crate::text::push_str;

verus! {

/// A change of a single privilege.
#[derive(Debug, Clone, Copy, PartialEq, Eq, Structural, PartialOrd, Ord, Hash)]
pub enum DatabasePrivilegeChange {
    YesToNo,
    NoToYes,
}

/// The change that takes a privilege from `p1` to `p2`, if any.
pub open spec fn change_between(p1: bool, p2: bool) -> Option<DatabasePrivilegeChange> {
    if p1 && !p2 {
        Some(DatabasePrivilegeChange::YesToNo)
    } else if !p1 && p2 {
        Some(DatabasePrivilegeChange::NoToYes)
    } else {
        None
    }
}

/// The value of a privilege after an optional change.
pub open spec fn apply_change(c: Option<DatabasePrivilegeChange>, p: bool) -> bool {
    match c {
        Some(DatabasePrivilegeChange::YesToNo) => false,
        Some(DatabasePrivilegeChange::NoToYes) => true,
        None => p,
    }
}

/// The eleven privileges after the eleven optional changes.
pub open spec fn apply_changes(cs: Seq<Option<DatabasePrivilegeChange>>, ps: Seq<bool>) -> Seq<bool> {
    Seq::new(11, |i: int| apply_change(cs[i], ps[i]))
}

/// The changes of `a` overridden by those present in `b`.
pub open spec fn mappend_changes(
    a: Seq<Option<DatabasePrivilegeChange>>,
    b: Seq<Option<DatabasePrivilegeChange>>,
) -> Seq<Option<DatabasePrivilegeChange>> {
    Seq::new(11, |i: int| if b[i] is Some { b[i] } else { a[i] })
}

/// A change kept only where it has an effect on the value `from`.
pub open spec fn effective_change(c: Option<DatabasePrivilegeChange>, from: bool) -> Option<
    DatabasePrivilegeChange,
> {
    match c {
        Some(DatabasePrivilegeChange::YesToNo) => if from {
            c
        } else {
            None
        },
        Some(DatabasePrivilegeChange::NoToYes) => if !from {
            c
        } else {
            None
        },
        None => None,
    }
}

/// Eleven changes with those that have no effect on `from` removed.
pub open spec fn effective_changes(cs: Seq<Option<DatabasePrivilegeChange>>, from: Seq<bool>) -> Seq<
    Option<DatabasePrivilegeChange>,
> {
    Seq::new(11, |i: int| effective_change(cs[i], from[i]))
}

/// Whether none of the eleven changes is present.
pub open spec fn no_changes(cs: Seq<Option<DatabasePrivilegeChange>>) -> bool {
    forall|i: int| 0 <= i < 11 ==> #[trigger] cs[i] is None
}

impl DatabasePrivilegeChange {
    pub fn new(p1: bool, p2: bool) -> (r: Option<DatabasePrivilegeChange>)
        ensures
            r == change_between(p1, p2),
    {
        if p1 && !p2 {
            Some(DatabasePrivilegeChange::YesToNo)
        } else if !p1 && p2 {
            Some(DatabasePrivilegeChange::NoToYes)
        } else {
            None
        }
    }
}

/// The before and after states of the privileges of one user on one database, as the
/// change of each privilege.
#[derive(Debug, PartialEq, Eq, PartialOrd, Ord, Default)]
pub struct DatabasePrivilegeRowDiff {
    pub db: MySQLDatabase,
    pub user: MySQLUser,
    pub select_priv: Option<DatabasePrivilegeChange>,
    pub insert_priv: Option<DatabasePrivilegeChange>,
    pub update_priv: Option<DatabasePrivilegeChange>,
    pub delete_priv: Option<DatabasePrivilegeChange>,
    pub create_priv: Option<DatabasePrivilegeChange>,
    pub drop_priv: Option<DatabasePrivilegeChange>,
    pub alter_priv: Option<DatabasePrivilegeChange>,
    pub index_priv: Option<DatabasePrivilegeChange>,
    pub create_tmp_table_priv: Option<DatabasePrivilegeChange>,
    pub lock_tables_priv: Option<DatabasePrivilegeChange>,
    pub references_priv: Option<DatabasePrivilegeChange>,
}

/// A row diff seen as its database name, its user name and its eleven changes.
pub type RowDiffView = (Seq<char>, Seq<char>, Seq<Option<DatabasePrivilegeChange>>);

impl View for DatabasePrivilegeRowDiff {
    type V = RowDiffView;

    open spec fn view(&self) -> RowDiffView {
        (self.db@, self.user@, self.changes())
    }
}

impl Clone for DatabasePrivilegeRowDiff {
    fn clone(&self) -> (r: Self)
        ensures
            r == *self,
    {
        DatabasePrivilegeRowDiff {
            db: self.db.clone(),
            user: self.user.clone(),
            select_priv: self.select_priv,
            insert_priv: self.insert_priv,
            update_priv: self.update_priv,
            delete_priv: self.delete_priv,
            create_priv: self.create_priv,
            drop_priv: self.drop_priv,
            alter_priv: self.alter_priv,
            index_priv: self.index_priv,
            create_tmp_table_priv: self.create_tmp_table_priv,
            lock_tables_priv: self.lock_tables_priv,
            references_priv: self.references_priv,
        }
    }
}

impl DatabasePrivilegeRowDiff {
    /// The eleven changes, in the order of the privilege fields.
    pub open spec fn changes(&self) -> Seq<Option<DatabasePrivilegeChange>> {
        Seq::new(11, |i: int| self.spec_change(i))
    }

    /// The change of the `i`th privilege, in the order of the privilege fields.
    pub open spec fn spec_change(&self, i: int) -> Option<DatabasePrivilegeChange> {
        if i == 0 { self.select_priv }
        else if i == 1 { self.insert_priv }
        else if i == 2 { self.update_priv }
        else if i == 3 { self.delete_priv }
        else if i == 4 { self.create_priv }
        else if i == 5 { self.drop_priv }
        else if i == 6 { self.alter_priv }
        else if i == 7 { self.index_priv }
        else if i == 8 { self.create_tmp_table_priv }
        else if i == 9 { self.lock_tables_priv }
        else { self.references_priv }
    }

    /// A diff with the given eleven changes.
    pub fn from_changes(db: MySQLDatabase, user: MySQLUser, c: &[Option<DatabasePrivilegeChange>]) -> (r: Self)
        requires
            c@.len() == 11,
        ensures
            r.db == db,
            r.user == user,
            r.changes() == c@,
    {
        let r = DatabasePrivilegeRowDiff {
            db,
            user,
            select_priv: c[0],
            insert_priv: c[1],
            update_priv: c[2],
            delete_priv: c[3],
            create_priv: c[4],
            drop_priv: c[5],
            alter_priv: c[6],
            index_priv: c[7],
            create_tmp_table_priv: c[8],
            lock_tables_priv: c[9],
            references_priv: c[10],
        };
        proof { lemma_seq11_ext(r.changes(), c@); }
        r
    }

    /// The change of the `i`th privilege.
    pub fn change_at(&self, i: usize) -> (r: Option<DatabasePrivilegeChange>)
        requires
            i < 11,
        ensures
            r == self.changes()[i as int],
    {
        if i == 0 { self.select_priv }
        else if i == 1 { self.insert_priv }
        else if i == 2 { self.update_priv }
        else if i == 3 { self.delete_priv }
        else if i == 4 { self.create_priv }
        else if i == 5 { self.drop_priv }
        else if i == 6 { self.alter_priv }
        else if i == 7 { self.index_priv }
        else if i == 8 { self.create_tmp_table_priv }
        else if i == 9 { self.lock_tables_priv }
        else { self.references_priv }
    }

    /// Calculates the difference between two rows, taking the names from the first.
    pub fn from_rows(row1: &DatabasePrivilegeRow, row2: &DatabasePrivilegeRow) -> (r:
        DatabasePrivilegeRowDiff)
        ensures
            r.db == row1.db,
            r.user == row1.user,
            r.changes() == Seq::new(
                11,
                |i: int| change_between(row1.privs()[i], row2.privs()[i]),
            ),
    {
        let ghost target = Seq::new(
            11,
            |i: int| change_between(row1.privs()[i], row2.privs()[i]),
        );
        let mut v: Vec<Option<DatabasePrivilegeChange>> = Vec::new();
        let mut i: usize = 0;
        while i < 11
            invariant
                i <= 11,
                target.len() == 11,
                forall|k: int| 0 <= k < 11 ==> #[trigger] target[k] == change_between(row1.privs()[k], row2.privs()[k]),
                v@ == target.take(i as int),
            decreases 11 - i,
        {
            v.push(DatabasePrivilegeChange::new(row1.privilege_at(i), row2.privilege_at(i)));
            i = i + 1;
            assert(v@ =~= target.take(i as int));
        }
        assert(v@ =~= target);
        DatabasePrivilegeRowDiff::from_changes(row1.db.clone(), row1.user.clone(), &v)
    }

    /// Returns true if there are no changes in this diff.
    pub fn is_empty(&self) -> (r: bool)
        ensures
            r == no_changes(self.changes()),
    {
        let r = self.select_priv.is_none() && self.insert_priv.is_none()
            && self.update_priv.is_none() && self.delete_priv.is_none()
            && self.create_priv.is_none() && self.drop_priv.is_none()
            && self.alter_priv.is_none() && self.index_priv.is_none()
            && self.create_tmp_table_priv.is_none() && self.lock_tables_priv.is_none()
            && self.references_priv.is_none();
        assert(no_changes(self.changes()) ==> r) by {
            if no_changes(self.changes()) {
                assert(self.changes()[0] is None);
                assert(self.changes()[1] is None);
                assert(self.changes()[2] is None);
                assert(self.changes()[3] is None);
                assert(self.changes()[4] is None);
                assert(self.changes()[5] is None);
                assert(self.changes()[6] is None);
                assert(self.changes()[7] is None);
                assert(self.changes()[8] is None);
                assert(self.changes()[9] is None);
                assert(self.changes()[10] is None);
            }
        }
        assert(r ==> no_changes(self.changes())) by {
            if r {
                assert forall|i: int| 0 <= i < 11 implies #[trigger] self.changes()[i] is None by {
                    if i == 0 {} else if i == 1 {} else if i == 2 {} else if i == 3 {} else if i == 4 {}
                    else if i == 5 {} else if i == 6 {} else if i == 7 {} else if i == 8 {} else if i == 9 {}
                    else {}
                }
            }
        }
        r
    }

    /// Retrieves the privilege change for a given privilege name.
    pub fn get_privilege_change_by_name(&self, privilege_name: &str) -> (r: Result<
        Option<DatabasePrivilegeChange>,
        String,
    >)
        ensures
            match privilege_index(privilege_name@) {
                Some(i) => r == Ok::<Option<DatabasePrivilegeChange>, String>(self.changes()[i]),
                None => r is Err && r->Err_0@ == "Unknown privilege name: "@ + privilege_name@,
            },
    {
        match privilege_index_of(privilege_name) {
            Some(i) => Ok(self.change_at(i)),
            None => {
                let mut msg = String::from_str("Unknown privilege name: ");
                push_str(&mut msg, privilege_name);
                Err(msg)
            },
        }
    }

    /// Merges another diff into this one, the changes present in `other` replacing those of
    /// this diff.
    pub fn mappend(&mut self, other: &DatabasePrivilegeRowDiff)
        ensures
            final(self).db == old(self).db,
            final(self).user == old(self).user,
            final(self).changes() == mappend_changes(old(self).changes(), other.changes()),
    {
        if other.select_priv.is_some() { self.select_priv = other.select_priv; }
        if other.insert_priv.is_some() { self.insert_priv = other.insert_priv; }
        if other.update_priv.is_some() { self.update_priv = other.update_priv; }
        if other.delete_priv.is_some() { self.delete_priv = other.delete_priv; }
        if other.create_priv.is_some() { self.create_priv = other.create_priv; }
        if other.drop_priv.is_some() { self.drop_priv = other.drop_priv; }
        if other.alter_priv.is_some() { self.alter_priv = other.alter_priv; }
        if other.index_priv.is_some() { self.index_priv = other.index_priv; }
        if other.create_tmp_table_priv.is_some() {
            self.create_tmp_table_priv = other.create_tmp_table_priv;
        }
        if other.lock_tables_priv.is_some() { self.lock_tables_priv = other.lock_tables_priv; }
        if other.references_priv.is_some() { self.references_priv = other.references_priv; }
        proof { lemma_seq11_ext(self.changes(), mappend_changes(old(self).changes(), other.changes())); }
    }

    /// Removes the changes that would not change the given row.
    pub fn remove_noops(&mut self, from: &DatabasePrivilegeRow)
        ensures
            final(self).db == old(self).db,
            final(self).user == old(self).user,
            final(self).changes() == effective_changes(old(self).changes(), from.privs()),
    {
        self.select_priv = new_value(self.select_priv, from.select_priv);
        self.insert_priv = new_value(self.insert_priv, from.insert_priv);
        self.update_priv = new_value(self.update_priv, from.update_priv);
        self.delete_priv = new_value(self.delete_priv, from.delete_priv);
        self.create_priv = new_value(self.create_priv, from.create_priv);
        self.drop_priv = new_value(self.drop_priv, from.drop_priv);
        self.alter_priv = new_value(self.alter_priv, from.alter_priv);
        self.index_priv = new_value(self.index_priv, from.index_priv);
        self.create_tmp_table_priv = new_value(
            self.create_tmp_table_priv,
            from.create_tmp_table_priv,
        );
        self.lock_tables_priv = new_value(self.lock_tables_priv, from.lock_tables_priv);
        self.references_priv = new_value(self.references_priv, from.references_priv);
        proof { lemma_seq11_ext(self.changes(), effective_changes(old(self).changes(), from.privs())); }
    }

    /// Applies the changes to a row.
    pub fn apply(&self, base: &mut DatabasePrivilegeRow)
        ensures
            final(base).db == old(base).db,
            final(base).user == old(base).user,
            final(base).privs() == apply_changes(self.changes(), old(base).privs()),
    {
        let ghost target = apply_changes(self.changes(), base.privs());
        let mut v: Vec<bool> = Vec::new();
        let mut i: usize = 0;
        while i < 11
            invariant
                i <= 11,
                target.len() == 11,
                forall|k: int| 0 <= k < 11 ==> #[trigger] target[k] == apply_change(self.changes()[k], base.privs()[k]),
                v@ == target.take(i as int),
            decreases 11 - i,
        {
            v.push(apply_one(self.change_at(i), base.privilege_at(i)));
            i = i + 1;
            assert(v@ =~= target.take(i as int));
        }
        assert(v@ =~= target);
        let new_row = DatabasePrivilegeRow::from_privileges(base.db.clone(), base.user.clone(), &v);
        *base = new_row;
    }

    /// The diff as text, one line per present change: `<name>: Y -> N` or `<name>: N -> Y`.
    pub fn to_display_string(&self) -> (r: String)
        ensures
            r@ == row_diff_display(self.changes(), 11),
    {
        let mut out = String::new();
        let mut i: usize = 0;
        while i < 11
            invariant
                i <= 11,
                out@ == row_diff_display(self.changes(), i as int),
            decreases 11 - i,
        {
            match self.change_at(i) {
                Some(c) => {
                    let name = db_priv_field_human_readable_name(database_privilege_field(i + 2));
                    push_str(&mut out, name.as_str());
                    match c {
                        DatabasePrivilegeChange::YesToNo => push_str(&mut out, ": Y -> N\n"),
                        DatabasePrivilegeChange::NoToYes => push_str(&mut out, ": N -> Y\n"),
                    }
                },
                None => {},
            }
            i = i + 1;
        }
        out
    }
}

/// The first `n` lines of a row diff's display.
pub open spec fn row_diff_display(cs: Seq<Option<DatabasePrivilegeChange>>, n: int) -> Seq<char>
    decreases n,
{
    if n <= 0 {
        Seq::empty()
    } else {
        row_diff_display(cs, n - 1) + match cs[n - 1] {
            Some(DatabasePrivilegeChange::YesToNo) => human_readable_name(privilege_name(n - 1))
                + ": Y -> N\n"@,
            Some(DatabasePrivilegeChange::NoToYes) => human_readable_name(privilege_name(n - 1))
                + ": N -> Y\n"@,
            None => Seq::empty(),
        }
    }
}

/// The line of the display for one change of the privilege with the given name.
pub open spec fn change_line(name: Seq<char>, c: DatabasePrivilegeChange) -> Seq<char> {
    match c {
        DatabasePrivilegeChange::YesToNo => human_readable_name(name) + ": Y -> N\n"@,
        DatabasePrivilegeChange::NoToYes => human_readable_name(name) + ": N -> Y\n"@,
    }
}

proof fn lemma_row_diff_display_prefix(cs: Seq<Option<DatabasePrivilegeChange>>, k: int, n: int)
    requires
        0 <= k < 11,
        0 <= n <= 11,
        cs.len() == 11,
        forall|j: int| 0 <= j < 11 && j != k ==> #[trigger] cs[j] is None,
        cs[k] is Some,
    ensures
        row_diff_display(cs, n) == if n > k {
            change_line(privilege_name(k), cs[k]->Some_0)
        } else {
            Seq::<char>::empty()
        },
    decreases n,
{
    if n > 0 {
        lemma_row_diff_display_prefix(cs, k, n - 1);
        if n - 1 == k {
            assert(Seq::<char>::empty() + change_line(privilege_name(k), cs[k]->Some_0) =~= change_line(privilege_name(k), cs[k]->Some_0));
        } else {
            assert(cs[n - 1] is None);
            let p = row_diff_display(cs, n - 1);
            assert(p + Seq::<char>::empty() =~= p);
        }
    }
}

/// A row diff with a single change displays as one line, labelled with the name of the field
/// that changes: `Insert: N -> Y` for granting `insert_priv` alone.
pub proof fn lemma_single_change_display(cs: Seq<Option<DatabasePrivilegeChange>>, k: int)
    requires
        0 <= k < 11,
        cs.len() == 11,
        forall|j: int| 0 <= j < 11 && j != k ==> #[trigger] cs[j] is None,
        cs[k] is Some,
    ensures
        row_diff_display(cs, 11) == change_line(privilege_name(k), cs[k]->Some_0),
{
    lemma_row_diff_display_prefix(cs, k, 11);
}

fn new_value(change: Option<DatabasePrivilegeChange>, from_value: bool) -> (r: Option<
    DatabasePrivilegeChange,
>)
    ensures
        r == effective_change(change, from_value),
{
    match change {
        Some(DatabasePrivilegeChange::YesToNo) => if from_value {
            change
        } else {
            None
        },
        Some(DatabasePrivilegeChange::NoToYes) => if !from_value {
            change
        } else {
            None
        },
        None => None,
    }
}

fn apply_one(change: Option<DatabasePrivilegeChange>, target: bool) -> (r: bool)
    ensures
        r == apply_change(change, target),
{
    match change {
        Some(DatabasePrivilegeChange::YesToNo) => false,
        Some(DatabasePrivilegeChange::NoToYes) => true,
        None => target,
    }
}

} // verus!

verus! {

/// Whether a row of privileges was introduced, modified or deleted, or is left as it is.
#[derive(Debug, PartialEq, Eq, PartialOrd, Ord)]
pub enum DatabasePrivilegesDiff {
    New(DatabasePrivilegeRow),
    Modified(DatabasePrivilegeRowDiff),
    Deleted(DatabasePrivilegeRow),
    Noop { db: MySQLDatabase, user: MySQLUser },
}

/// A [`DatabasePrivilegesDiff`] seen through the views of its parts.
pub enum PrivilegesDiffView {
    New(PrivilegeRowView),
    Modified(RowDiffView),
    Deleted(PrivilegeRowView),
    Noop(Seq<char>, Seq<char>),
}

/// The database name and user name that a privilege row is about.
pub type RowKey = (Seq<char>, Seq<char>);

impl View for DatabasePrivilegesDiff {
    type V = PrivilegesDiffView;

    open spec fn view(&self) -> PrivilegesDiffView {
        match self {
            DatabasePrivilegesDiff::New(r) => PrivilegesDiffView::New(r@),
            DatabasePrivilegesDiff::Modified(d) => PrivilegesDiffView::Modified(d@),
            DatabasePrivilegesDiff::Deleted(r) => PrivilegesDiffView::Deleted(r@),
            DatabasePrivilegesDiff::Noop { db, user } => PrivilegesDiffView::Noop(db@, user@),
        }
    }
}

impl Clone for DatabasePrivilegesDiff {
    fn clone(&self) -> (r: Self)
        ensures
            r == *self,
    {
        match self {
            DatabasePrivilegesDiff::New(r) => DatabasePrivilegesDiff::New(r.clone()),
            DatabasePrivilegesDiff::Modified(d) => DatabasePrivilegesDiff::Modified(d.clone()),
            DatabasePrivilegesDiff::Deleted(r) => DatabasePrivilegesDiff::Deleted(r.clone()),
            DatabasePrivilegesDiff::Noop { db, user } => DatabasePrivilegesDiff::Noop {
                db: db.clone(),
                user: user.clone(),
            },
        }
    }
}

/// The key of a privilege row.
pub open spec fn row_key(r: PrivilegeRowView) -> RowKey {
    (r.0, r.1)
}

/// The key of a diff.
pub open spec fn diff_key(d: PrivilegesDiffView) -> RowKey {
    match d {
        PrivilegesDiffView::New(r) => (r.0, r.1),
        PrivilegesDiffView::Modified(r) => (r.0, r.1),
        PrivilegesDiffView::Deleted(r) => (r.0, r.1),
        PrivilegesDiffView::Noop(db, user) => (db, user),
    }
}

/// The state of one key: the privileges of its row, or `None` when there is no row.
pub type KeyState = Option<Seq<bool>>;

/// What a diff does to the state of its key; `None` when it does not apply to that state.
pub open spec fn diff_effect(d: PrivilegesDiffView, s: KeyState) -> Option<KeyState> {
    match d {
        PrivilegesDiffView::New(r) => if s is None {
            Some(Some(r.2))
        } else {
            None
        },
        PrivilegesDiffView::Modified(m) => match s {
            Some(p) => Some(Some(apply_changes(m.2, p))),
            None => None,
        },
        PrivilegesDiffView::Deleted(_) => if s is Some {
            Some(None)
        } else {
            None
        },
        PrivilegesDiffView::Noop(_, _) => Some(s),
    }
}

/// The result of merging `b` into `a`, or the message of the error.
pub open spec fn diff_mappend(a: PrivilegesDiffView, b: PrivilegesDiffView) -> Result<
    PrivilegesDiffView,
    Seq<char>,
> {
    if a is Deleted && b is Modified {
        Err("Cannot modify a deleted database privilege row"@)
    } else if (a is New || a is Modified) && b is New {
        Err("Cannot create an already existing database privilege row"@)
    } else if a is Noop {
        Ok(b)
    } else if b is Noop {
        Ok(a)
    } else {
        match (a, b) {
            (PrivilegesDiffView::New(r), PrivilegesDiffView::Modified(m)) => Ok(
                PrivilegesDiffView::New((r.0, r.1, apply_changes(m.2, r.2))),
            ),
            (PrivilegesDiffView::Modified(m1), PrivilegesDiffView::Modified(m2)) => {
                let cs = mappend_changes(m1.2, m2.2);
                if no_changes(cs) {
                    Ok(PrivilegesDiffView::Noop(m1.0, m1.1))
                } else {
                    Ok(PrivilegesDiffView::Modified((m1.0, m1.1, cs)))
                }
            },
            (PrivilegesDiffView::Modified(_), PrivilegesDiffView::Deleted(r)) => Ok(
                PrivilegesDiffView::Deleted(r),
            ),
            (PrivilegesDiffView::New(r), PrivilegesDiffView::Deleted(_)) => Ok(
                PrivilegesDiffView::Noop(r.0, r.1),
            ),
            _ => Ok(a),
        }
    }
}

/// Whether two rows have the same names and the same privileges.
pub fn same_row(a: &DatabasePrivilegeRow, b: &DatabasePrivilegeRow) -> (r: bool)
    ensures
        r == (a@ == b@),
{
    if !a.db.same_name(&b.db) || !a.user.same_name(&b.user) {
        return false;
    }
    let mut i: usize = 0;
    while i < 11
        invariant
            i <= 11,
            forall|k: int| 0 <= k < i ==> #[trigger] a.privs()[k] == b.privs()[k],
        decreases 11 - i,
    {
        if a.privilege_at(i) != b.privilege_at(i) {
            return false;
        }
        i = i + 1;
    }
    assert(a.privs() =~= b.privs());
    true
}

/// Whether two row diffs have the same names and the same changes.
pub fn same_row_diff(a: &DatabasePrivilegeRowDiff, b: &DatabasePrivilegeRowDiff) -> (r: bool)
    ensures
        r == (a@ == b@),
{
    if !a.db.same_name(&b.db) || !a.user.same_name(&b.user) {
        return false;
    }
    let mut i: usize = 0;
    while i < 11
        invariant
            i <= 11,
            forall|k: int| 0 <= k < i ==> #[trigger] a.changes()[k] == b.changes()[k],
        decreases 11 - i,
    {
        if a.change_at(i) != b.change_at(i) {
            return false;
        }
        i = i + 1;
    }
    assert(a.changes() =~= b.changes());
    true
}

impl DatabasePrivilegesDiff {
    pub fn get_database_name(&self) -> (r: &MySQLDatabase)
        ensures
            r@ == diff_key(self@).0,
    {
        match self {
            DatabasePrivilegesDiff::New(p) => &p.db,
            DatabasePrivilegesDiff::Modified(p) => &p.db,
            DatabasePrivilegesDiff::Deleted(p) => &p.db,
            DatabasePrivilegesDiff::Noop { db, .. } => db,
        }
    }

    pub fn get_user_name(&self) -> (r: &MySQLUser)
        ensures
            r@ == diff_key(self@).1,
    {
        match self {
            DatabasePrivilegesDiff::New(p) => &p.user,
            DatabasePrivilegesDiff::Modified(p) => &p.user,
            DatabasePrivilegesDiff::Deleted(p) => &p.user,
            DatabasePrivilegesDiff::Noop { user, .. } => user,
        }
    }

    /// Whether two diffs are the same.
    pub fn same_as(&self, other: &DatabasePrivilegesDiff) -> (r: bool)
        ensures
            r == (self@ == other@),
    {
        match (self, other) {
            (DatabasePrivilegesDiff::New(a), DatabasePrivilegesDiff::New(b)) => same_row(a, b),
            (DatabasePrivilegesDiff::Modified(a), DatabasePrivilegesDiff::Modified(b)) => {
                same_row_diff(a, b)
            },
            (DatabasePrivilegesDiff::Deleted(a), DatabasePrivilegesDiff::Deleted(b)) => same_row(
                a,
                b,
            ),
            (
                DatabasePrivilegesDiff::Noop { db: d1, user: u1 },
                DatabasePrivilegesDiff::Noop { db: d2, user: u2 },
            ) => d1.same_name(d2) && u1.same_name(u2),
            _ => false,
        }
    }

    /// Merges another diff into this one, as if `other` happened after this one: a creation
    /// followed by a modification becomes a creation of the modified row.
    pub fn mappend(&mut self, other: &DatabasePrivilegesDiff) -> (r: Result<(), String>)
        ensures
            match diff_mappend(old(self)@, other@) {
                Ok(d) => r is Ok && final(self)@ == d,
                Err(msg) => r is Err && r->Err_0@ == msg && *final(self) == *old(self),
            },
    {
        let is_deleted = match self {
            DatabasePrivilegesDiff::Deleted(_) => true,
            _ => false,
        };
        let is_new = match self {
            DatabasePrivilegesDiff::New(_) => true,
            _ => false,
        };
        let is_modified = match self {
            DatabasePrivilegesDiff::Modified(_) => true,
            _ => false,
        };
        let other_is_new = match other {
            DatabasePrivilegesDiff::New(_) => true,
            _ => false,
        };
        let other_is_modified = match other {
            DatabasePrivilegesDiff::Modified(_) => true,
            _ => false,
        };
        if is_deleted && other_is_modified {
            return Err(String::from_str("Cannot modify a deleted database privilege row"));
        }
        if (is_new || is_modified) && other_is_new {
            return Err(String::from_str("Cannot create an already existing database privilege row"));
        }
        if let DatabasePrivilegesDiff::Noop { .. } = self {
            *self = other.clone();
            return Ok(());
        } else if let DatabasePrivilegesDiff::Noop { .. } = other {
            return Ok(());
        }
        let next: Option<DatabasePrivilegesDiff> = match (&*self, other) {
            (DatabasePrivilegesDiff::New(row), DatabasePrivilegesDiff::Modified(modified)) => {
                let mut row = row.clone();
                modified.apply(&mut row);
                Some(DatabasePrivilegesDiff::New(row))
            },
            (DatabasePrivilegesDiff::Modified(inner), DatabasePrivilegesDiff::Modified(modified)) => {
                let mut inner = inner.clone();
                inner.mappend(modified);
                if inner.is_empty() {
                    Some(DatabasePrivilegesDiff::Noop { db: inner.db, user: inner.user })
                } else {
                    Some(DatabasePrivilegesDiff::Modified(inner))
                }
            },
            (DatabasePrivilegesDiff::Modified(_), DatabasePrivilegesDiff::Deleted(deleted)) => {
                Some(DatabasePrivilegesDiff::Deleted(deleted.clone()))
            },
            (DatabasePrivilegesDiff::New(row), DatabasePrivilegesDiff::Deleted(_)) => {
                Some(DatabasePrivilegesDiff::Noop { db: row.db.clone(), user: row.user.clone() })
            },
            _ => None,
        };
        if let Some(next) = next {
            *self = next;
        }
        Ok(())
    }
}

/// Whether no two rows share a key.
pub open spec fn unique_keys(rows: Seq<PrivilegeRowView>) -> bool {
    forall|i: int, j: int|
        0 <= i < j < rows.len() ==> row_key(#[trigger] rows[i]) != row_key(#[trigger] rows[j])
}

/// The last row with the given key, as a `HashMap` built from the rows keeps it.
pub open spec fn lookup(rows: Seq<PrivilegeRowView>, k: RowKey) -> Option<PrivilegeRowView>
    decreases rows.len(),
{
    if rows.len() == 0 {
        None
    } else if row_key(rows.last()) == k {
        Some(rows.last())
    } else {
        lookup(rows.drop_last(), k)
    }
}

/// The state of a key in a list of rows.
pub open spec fn state_of(rows: Seq<PrivilegeRowView>, k: RowKey) -> KeyState {
    match lookup(rows, k) {
        Some(r) => Some(r.2),
        None => None,
    }
}

/// The views of a list of rows.
pub open spec fn rows_view(rows: Seq<DatabasePrivilegeRow>) -> Seq<PrivilegeRowView> {
    rows.map_values(|r: DatabasePrivilegeRow| r@)
}

/// The views of a list of diffs.
pub open spec fn diffs_view(ds: Seq<DatabasePrivilegesDiff>) -> Seq<PrivilegesDiffView> {
    ds.map_values(|d: DatabasePrivilegesDiff| d@)
}

/// The changes that take the privileges `p1` to `p2`.
pub open spec fn changes_between(p1: Seq<bool>, p2: Seq<bool>) -> Seq<
    Option<DatabasePrivilegeChange>,
> {
    Seq::new(11, |i: int| change_between(p1[i], p2[i]))
}

/// The diffs for the rows of `to`, in order: a modification for a row that `from` holds with
/// other privileges, a creation for a row that `from` does not hold.
pub open spec fn diffs_for_target(from: Seq<PrivilegeRowView>, to: Seq<PrivilegeRowView>) -> Seq<
    PrivilegesDiffView,
>
    decreases to.len(),
{
    if to.len() == 0 {
        Seq::empty()
    } else {
        let p = to.last();
        let prev = diffs_for_target(from, to.drop_last());
        match lookup(from, row_key(p)) {
            Some(old) => {
                let cs = changes_between(old.2, p.2);
                if no_changes(cs) {
                    prev
                } else {
                    prev.push(PrivilegesDiffView::Modified((old.0, old.1, cs)))
                }
            },
            None => prev.push(PrivilegesDiffView::New(p)),
        }
    }
}

/// The deletions of the rows of `from` whose key `to` does not hold, in order.
pub open spec fn deletions(from: Seq<PrivilegeRowView>, to: Seq<PrivilegeRowView>) -> Seq<
    PrivilegesDiffView,
>
    decreases from.len(),
{
    if from.len() == 0 {
        Seq::empty()
    } else {
        let p = from.last();
        let prev = deletions(from.drop_last(), to);
        if lookup(to, row_key(p)) is Some {
            prev
        } else {
            prev.push(PrivilegesDiffView::Deleted(p))
        }
    }
}

/// The elements of `s` without repetitions, each at its first occurrence.
pub open spec fn dedup<T>(s: Seq<T>) -> Seq<T>
    decreases s.len(),
{
    if s.len() == 0 {
        Seq::empty()
    } else {
        let d = dedup(s.drop_last());
        if d.contains(s.last()) {
            d
        } else {
            d.push(s.last())
        }
    }
}

/// The deduplication of a sequence holds each element once.
pub proof fn lemma_dedup_unique<T>(s: Seq<T>)
    ensures
        dedup(s).no_duplicates(),
    decreases s.len(),
{
    if s.len() > 0 {
        lemma_dedup_unique(s.drop_last());
        let d = dedup(s.drop_last());
        if !d.contains(s.last()) {
            let n = d.push(s.last());
            assert forall|a: int, b: int| 0 <= a < n.len() && 0 <= b < n.len() && a != b implies n[a] != n[b] by {
                if a < d.len() && b < d.len() {
                    assert(n[a] == d[a] && n[b] == d[b]);
                } else if a < d.len() {
                    assert(n[a] == d[a]);
                } else {
                    assert(n[b] == d[b]);
                }
            }
        }
    }
}

/// The diffs that take `from` to `to`.
pub open spec fn privilege_diffs(from: Seq<PrivilegeRowView>, to: Seq<PrivilegeRowView>) -> Seq<
    PrivilegesDiffView,
> {
    dedup(diffs_for_target(from, to) + deletions(from, to))
}

/// The state of key `k` after the diffs for `k` in `ds`, applied in order, starting from `s`;
/// `None` when one of them does not apply.
pub open spec fn apply_diffs(s: Option<KeyState>, ds: Seq<PrivilegesDiffView>, k: RowKey) -> Option<
    KeyState,
>
    decreases ds.len(),
{
    if ds.len() == 0 {
        s
    } else {
        let prev = apply_diffs(s, ds.drop_last(), k);
        if diff_key(ds.last()) == k {
            match prev {
                Some(st) => diff_effect(ds.last(), st),
                None => None,
            }
        } else {
            prev
        }
    }
}

/// The index of the last row with the given key.
fn find_row(rows: &[DatabasePrivilegeRow], db: &MySQLDatabase, user: &MySQLUser) -> (r: Option<usize>)
    ensures
        match lookup(rows_view(rows@), (db@, user@)) {
            Some(row) => r is Some && r->Some_0 < rows@.len() && rows@[r->Some_0 as int]@ == row,
            None => r is None,
        },
{
    let mut found: Option<usize> = None;
    let mut i: usize = 0;
    while i < rows.len()
        invariant
            i <= rows@.len(),
            match lookup(rows_view(rows@).take(i as int), (db@, user@)) {
                Some(row) => found is Some && found->Some_0 < i && rows@[found->Some_0 as int]@ == row,
                None => found is None,
            },
        decreases rows@.len() - i,
    {
        assert(rows_view(rows@).take(i + 1).drop_last() =~= rows_view(rows@).take(i as int));
        if rows[i].db.same_name(db) && rows[i].user.same_name(user) {
            found = Some(i);
        }
        i = i + 1;
    }
    assert(rows_view(rows@).take(rows@.len() as int) =~= rows_view(rows@));
    found
}

/// Pushes `d` unless an equal diff is already there.
fn push_unique(out: &mut Vec<DatabasePrivilegesDiff>, d: DatabasePrivilegesDiff)
    ensures
        diffs_view(final(out)@) == (if diffs_view(old(out)@).contains(d@) {
            diffs_view(old(out)@)
        } else {
            diffs_view(old(out)@).push(d@)
        }),
{
    let mut i: usize = 0;
    while i < out.len()
        invariant
            i <= out@.len(),
            forall|k: int| 0 <= k < i ==> #[trigger] out@[k]@ != d@,
        decreases out@.len() - i,
    {
        if out[i].same_as(&d) {
            assert(diffs_view(out@)[i as int] == d@);
            return;
        }
        i = i + 1;
    }
    assert(!diffs_view(out@).contains(d@)) by {
        if diffs_view(out@).contains(d@) {
            let k = choose|k: int| 0 <= k < diffs_view(out@).len() && diffs_view(out@)[k] == d@;
            assert(out@[k]@ == d@);
        }
    }
    out.push(d);
    assert(diffs_view(out@) =~= diffs_view(old(out)@).push(d@));
}

/// Calculates the diffs that take the privileges `from` to the privileges `to`: a creation for
/// each row of `to` whose key `from` lacks, a modification for each row whose privileges
/// changed, and a deletion for each row of `from` whose key `to` lacks. Each diff occurs once,
/// and the diffs come in the order of `sorted_diffs`.
pub fn diff_privileges(from: &[DatabasePrivilegeRow], to: &[DatabasePrivilegeRow]) -> (r: Vec<
    DatabasePrivilegesDiff,
>)
    ensures
        diffs_view(r@).to_set() == privilege_diffs(rows_view(from@), rows_view(to@)).to_set(),
        diffs_view(r@).no_duplicates(),
        sorted_diffs(diffs_view(r@)),
{
    let ghost fv = rows_view(from@);
    let ghost tv = rows_view(to@);
    let ghost raw_all = diffs_for_target(fv, tv) + deletions(fv, tv);
    let mut result: Vec<DatabasePrivilegesDiff> = Vec::new();
    let ghost mut raw: Seq<PrivilegesDiffView> = Seq::empty();
    let mut i: usize = 0;
    while i < to.len()
        invariant
            i <= to@.len(),
            fv == rows_view(from@),
            tv == rows_view(to@),
            raw == diffs_for_target(fv, tv.take(i as int)),
            diffs_view(result@) == dedup(raw),
        decreases to@.len() - i,
    {
        assert(tv.take(i + 1).drop_last() =~= tv.take(i as int));
        let p = &to[i];
        match find_row(from, &p.db, &p.user) {
            Some(j) => {
                let diff = DatabasePrivilegeRowDiff::from_rows(&from[j], p);
                assert(diff@ == (from@[j as int]@.0, from@[j as int]@.1, changes_between(from@[j as int]@.2, p@.2)));
                if !diff.is_empty() {
                    proof {
                        let ghost old_raw = raw;
                raw = raw.push(PrivilegesDiffView::Modified(diff@));
                assert(raw.drop_last() =~= old_raw);
                    }
                    push_unique(&mut result, DatabasePrivilegesDiff::Modified(diff));
                }
            },
            None => {
                proof {
                    let ghost old_raw = raw;
                raw = raw.push(PrivilegesDiffView::New(p@));
                assert(raw.drop_last() =~= old_raw);
                }
                push_unique(&mut result, DatabasePrivilegesDiff::New(p.clone()));
            },
        }
        i = i + 1;
        assert(raw == diffs_for_target(fv, tv.take(i as int)));
    }
    assert(tv.take(to@.len() as int) =~= tv);
    let ghost first = raw;
    let mut j: usize = 0;
    while j < from.len()
        invariant
            j <= from@.len(),
            fv == rows_view(from@),
            tv == rows_view(to@),
            first == diffs_for_target(fv, tv),
            raw == first + deletions(fv.take(j as int), tv),
            diffs_view(result@) == dedup(raw),
        decreases from@.len() - j,
    {
        assert(fv.take(j + 1).drop_last() =~= fv.take(j as int));
        let p = &from[j];
        let in_target = find_row(to, &p.db, &p.user);
        if in_target.is_none() {
            proof {
                assert((first + deletions(fv.take(j as int), tv)).push(PrivilegesDiffView::Deleted(p@))
                    =~= first + deletions(fv.take(j as int), tv).push(PrivilegesDiffView::Deleted(p@)));
                let ghost old_raw = raw;
                raw = raw.push(PrivilegesDiffView::Deleted(p@));
                assert(raw.drop_last() =~= old_raw);
            }
            push_unique(&mut result, DatabasePrivilegesDiff::Deleted(p.clone()));
        }
        j = j + 1;
        assert(raw =~= first + deletions(fv.take(j as int), tv));
    }
    assert(fv.take(from@.len() as int) =~= fv);
    proof {
        lemma_dedup_unique(raw);
    }
    sort_privilege_diffs(result)
}

} // verus!

verus! {

/// The privileges of a row that does not exist yet: none.
pub open spec fn no_privileges() -> Seq<bool> {
    Seq::new(11, |i: int| false)
}

/// The views of a list of row diffs.
pub open spec fn row_diffs_view(ds: Seq<DatabasePrivilegeRowDiff>) -> Seq<RowDiffView> {
    ds.map_values(|d: DatabasePrivilegeRowDiff| d@)
}

/// The diffs that carry out requested row changes on `from`: a modification with the
/// changes that have an effect on an existing row, a creation of a row with the requested
/// privileges where there is none.
pub open spec fn create_or_modify_diffs(from: Seq<PrivilegeRowView>, to: Seq<RowDiffView>) -> Seq<
    PrivilegesDiffView,
>
    decreases to.len(),
{
    if to.len() == 0 {
        Seq::empty()
    } else {
        let d = to.last();
        let prev = create_or_modify_diffs(from, to.drop_last());
        match lookup(from, (d.0, d.1)) {
            Some(old) => {
                let cs = effective_changes(d.2, old.2);
                if no_changes(cs) {
                    prev
                } else {
                    prev.push(PrivilegesDiffView::Modified((d.0, d.1, cs)))
                }
            },
            None => prev.push(
                PrivilegesDiffView::New((d.0, d.1, apply_changes(d.2, no_privileges()))),
            ),
        }
    }
}

/// Converts requested changes of privilege rows into diffs, creating the rows that do not
/// exist yet and modifying those that do. Changes that would not change a row are dropped;
/// each diff occurs once, and the diffs come in the order of `sorted_diffs`.
pub fn create_or_modify_privilege_rows(
    from: &[DatabasePrivilegeRow],
    to: &[DatabasePrivilegeRowDiff],
) -> (r: Vec<DatabasePrivilegesDiff>)
    ensures
        diffs_view(r@).to_set() == dedup(create_or_modify_diffs(rows_view(from@), row_diffs_view(to@))).to_set(),
        diffs_view(r@).no_duplicates(),
        sorted_diffs(diffs_view(r@)),
{
    let ghost fv = rows_view(from@);
    let ghost tv = row_diffs_view(to@);
    let mut result: Vec<DatabasePrivilegesDiff> = Vec::new();
    let ghost mut raw: Seq<PrivilegesDiffView> = Seq::empty();
    let mut i: usize = 0;
    while i < to.len()
        invariant
            i <= to@.len(),
            fv == rows_view(from@),
            tv == row_diffs_view(to@),
            raw == create_or_modify_diffs(fv, tv.take(i as int)),
            diffs_view(result@) == dedup(raw),
        decreases to@.len() - i,
    {
        assert(tv.take(i + 1).drop_last() =~= tv.take(i as int));
        let diff = &to[i];
        match find_row(from, &diff.db, &diff.user) {
            Some(j) => {
                let mut modified = diff.clone();
                modified.remove_noops(&from[j]);
                if !modified.is_empty() {
                    proof {
                        let ghost old_raw = raw;
                        raw = raw.push(PrivilegesDiffView::Modified(modified@));
                        assert(raw.drop_last() =~= old_raw);
                    }
                    push_unique(&mut result, DatabasePrivilegesDiff::Modified(modified));
                }
            },
            None => {
                let mut new_row = DatabasePrivilegeRow::from_privileges(
                    diff.db.clone(),
                    diff.user.clone(),
                    &[false, false, false, false, false, false, false, false, false, false, false],
                );
                assert(new_row.privs() =~= no_privileges());
                diff.apply(&mut new_row);
                proof {
                    let ghost old_raw = raw;
                    raw = raw.push(PrivilegesDiffView::New(new_row@));
                    assert(raw.drop_last() =~= old_raw);
                }
                push_unique(&mut result, DatabasePrivilegesDiff::New(new_row));
            },
        }
        i = i + 1;
        assert(raw == create_or_modify_diffs(fv, tv.take(i as int)));
    }
    assert(tv.take(to@.len() as int) =~= tv);
    proof {
        lemma_dedup_unique(raw);
    }
    sort_privilege_diffs(result)
}

} // verus!

verus! {

/// The entries of a list of diffs with distinct keys, as a map from key to diff.
pub open spec fn keys_map(s: Seq<PrivilegesDiffView>) -> Map<RowKey, PrivilegesDiffView>
    decreases s.len(),
{
    if s.len() == 0 {
        Map::empty()
    } else {
        keys_map(s.drop_last()).insert(diff_key(s.last()), s.last())
    }
}

/// Whether no two diffs share a key.
pub open spec fn distinct_diff_keys(s: Seq<PrivilegesDiffView>) -> bool {
    forall|i: int, j: int|
        0 <= i < j < s.len() ==> diff_key(#[trigger] s[i]) != diff_key(#[trigger] s[j])
}

/// The merged diff of a key so far; a key without one has nothing to do.
pub open spec fn merged_at(m: Map<RowKey, PrivilegesDiffView>, k: RowKey) -> PrivilegesDiffView {
    if m.contains_key(k) {
        m[k]
    } else {
        PrivilegesDiffView::Noop(k.0, k.1)
    }
}

/// The diffs of `to`, merged per key in order; the message of the first merge that fails.
pub open spec fn merge_diffs(to: Seq<PrivilegesDiffView>) -> Result<
    Map<RowKey, PrivilegesDiffView>,
    Seq<char>,
>
    decreases to.len(),
{
    if to.len() == 0 {
        Ok(Map::empty())
    } else {
        match merge_diffs(to.drop_last()) {
            Err(e) => Err(e),
            Ok(m) => {
                let d = to.last();
                let k = diff_key(d);
                match diff_mappend(merged_at(m, k), d) {
                    Ok(c) => Ok(m.insert(k, c)),
                    Err(e) => Err(e),
                }
            },
        }
    }
}

/// A merged diff with the changes that have no effect on the existing row removed; a
/// modification left without changes is nothing to do.
pub open spec fn reduced_diff(from: Seq<PrivilegeRowView>, d: PrivilegesDiffView) -> PrivilegesDiffView {
    match d {
        PrivilegesDiffView::Modified(m) => match lookup(from, (m.0, m.1)) {
            Some(row) => {
                let cs = effective_changes(m.2, row.2);
                if no_changes(cs) {
                    PrivilegesDiffView::Noop(m.0, m.1)
                } else {
                    PrivilegesDiffView::Modified((m.0, m.1, cs))
                }
            },
            None => d,
        },
        _ => d,
    }
}

/// The reduced diffs: for each key with a merged diff, that diff reduced, unless nothing is
/// left to do.
pub open spec fn reduced_diffs(from: Seq<PrivilegeRowView>, m: Map<RowKey, PrivilegesDiffView>) -> Set<
    PrivilegesDiffView,
> {
    Set::new(
        |d: PrivilegesDiffView|
            !(d is Noop) && exists|k: RowKey|
                #![trigger m[k]]
                m.contains_key(k) && reduced_diff(from, m[k]) == d,
    )
}

/// The map of diffs with distinct keys holds the key of each diff, and only those, each with
/// its diff.
pub proof fn lemma_keys_map(s: Seq<PrivilegesDiffView>)
    requires
        distinct_diff_keys(s),
    ensures
        forall|k: RowKey| #[trigger]
            keys_map(s).contains_key(k) <==> exists|i: int| 0 <= i < s.len() && diff_key(s[i]) == k,
        forall|i: int| 0 <= i < s.len() ==> #[trigger] keys_map(s)[diff_key(s[i])] == s[i],
    decreases s.len(),
{
    if s.len() > 0 {
        let dl = s.drop_last();
        let lk = diff_key(s.last());
        assert(keys_map(s) == keys_map(dl).insert(lk, s.last()));
        assert(distinct_diff_keys(dl)) by {
            assert forall|i: int, j: int| 0 <= i < j < dl.len() implies diff_key(#[trigger] dl[i])
                != diff_key(#[trigger] dl[j]) by {
                assert(dl[i] == s[i] && dl[j] == s[j]);
            }
        }
        lemma_keys_map(dl);
        assert forall|k: RowKey| #[trigger] keys_map(s).contains_key(k) <==> exists|i: int|
            0 <= i < s.len() && diff_key(s[i]) == k by {
            if keys_map(s).contains_key(k) {
                if k == lk {
                    assert(diff_key(s[s.len() - 1]) == k);
                } else {
                    assert(keys_map(dl).contains_key(k));
                    let i = choose|i: int| 0 <= i < dl.len() && diff_key(dl[i]) == k;
                    assert(s[i] == dl[i]);
                    assert(0 <= i < s.len() && diff_key(s[i]) == k);
                }
            }
            if exists|i: int| 0 <= i < s.len() && diff_key(s[i]) == k {
                let i = choose|i: int| 0 <= i < s.len() && diff_key(s[i]) == k;
                if i < dl.len() {
                    assert(dl[i] == s[i]);
                    assert(keys_map(dl)[diff_key(dl[i])] == dl[i]);
                    assert(keys_map(dl).contains_key(k));
                } else {
                    assert(k == lk);
                }
            }
        }
        assert forall|i: int| 0 <= i < s.len() implies #[trigger] keys_map(s)[diff_key(s[i])] == s[i] by {
            if i < dl.len() {
                assert(dl[i] == s[i]);
                assert(diff_key(s[i]) != diff_key(s[s.len() - 1]));
                assert(keys_map(dl)[diff_key(dl[i])] == dl[i]);
            }
        }
    }
}

proof fn lemma_keys_map_update(s: Seq<PrivilegesDiffView>, i: int, c: PrivilegesDiffView)
    requires
        distinct_diff_keys(s),
        0 <= i < s.len(),
        diff_key(c) == diff_key(s[i]),
    ensures
        keys_map(s.update(i, c)) == keys_map(s).insert(diff_key(c), c),
        distinct_diff_keys(s.update(i, c)),
    decreases s.len(),
{
    let t = s.update(i, c);
    assert(distinct_diff_keys(t)) by {
        assert forall|a: int, b: int| 0 <= a < b < t.len() implies diff_key(#[trigger] t[a])
            != diff_key(#[trigger] t[b]) by {
            assert(diff_key(t[a]) == diff_key(s[a]));
            assert(diff_key(t[b]) == diff_key(s[b]));
        }
    }
    lemma_keys_map(s);
    lemma_keys_map(t);
    assert(keys_map(t) =~= keys_map(s).insert(diff_key(c), c)) by {
        assert forall|k: RowKey| #[trigger] keys_map(t).contains_key(k) <==> keys_map(s).insert(
            diff_key(c),
            c,
        ).contains_key(k) by {
            if keys_map(t).contains_key(k) {
                let j = choose|j: int| 0 <= j < t.len() && diff_key(t[j]) == k;
                assert(diff_key(t[j]) == diff_key(s[j]));
            }
            if keys_map(s).contains_key(k) {
                let j = choose|j: int| 0 <= j < s.len() && diff_key(s[j]) == k;
                assert(diff_key(t[j]) == diff_key(s[j]));
            }
        }
        assert forall|k: RowKey| #[trigger] keys_map(t).contains_key(k) implies keys_map(t)[k]
            == keys_map(s).insert(diff_key(c), c)[k] by {
            let j = choose|j: int| 0 <= j < t.len() && diff_key(t[j]) == k;
            assert(keys_map(t)[diff_key(t[j])] == t[j]);
            if j != i {
                assert(keys_map(s)[diff_key(s[j])] == s[j]);
            }
        }
    }
}

/// Once merging a prefix fails, merging the whole fails with the same message.
proof fn lemma_merge_err_stays(to: Seq<PrivilegesDiffView>, n: int)
    requires
        0 <= n <= to.len(),
        merge_diffs(to.take(n)) is Err,
    ensures
        merge_diffs(to) == merge_diffs(to.take(n)),
    decreases to.len(),
{
    if n == to.len() {
        assert(to.take(n) =~= to);
    } else {
        let dl = to.drop_last();
        assert(dl.take(n) =~= to.take(n));
        lemma_merge_err_stays(dl, n);
    }
}

/// Merging keeps the key of diffs that have the same key.
pub proof fn lemma_mappend_key(a: PrivilegesDiffView, b: PrivilegesDiffView)
    requires
        diff_key(a) == diff_key(b),
    ensures
        diff_mappend(a, b) matches Ok(c) ==> diff_key(c) == diff_key(a),
{
}

/// The index of the entry with the given key.
fn find_entry(entries: &Vec<DatabasePrivilegesDiff>, db: &MySQLDatabase, user: &MySQLUser) -> (r: Option<usize>)
    ensures
        match r {
            Some(i) => i < entries@.len() && diff_key(entries@[i as int]@) == (db@, user@),
            None => forall|i: int| 0 <= i < entries@.len() ==> diff_key(#[trigger] entries@[i]@) != (db@, user@),
        },
{
    let mut i: usize = 0;
    while i < entries.len()
        invariant
            i <= entries@.len(),
            forall|j: int| 0 <= j < i ==> diff_key(#[trigger] entries@[j]@) != (db@, user@),
        decreases entries@.len() - i,
    {
        if entries[i].get_database_name().same_name(db) && entries[i].get_user_name().same_name(user) {
            return Some(i);
        }
        i = i + 1;
    }
    None
}

/// Merges the diffs of `to` per database and user, in order, and drops what would not change
/// the rows of `from`: modifications of privileges to the values they already have, and keys
/// that end up with nothing to do. Fails with the message of the first merge that does not go
/// through (a modification of a deleted row, or a creation of a row that exists). The diffs
/// come in the order of `sorted_diffs`.
pub fn reduce_privilege_diffs(
    from: &[DatabasePrivilegeRow],
    to: &[DatabasePrivilegesDiff],
) -> (r: Result<Vec<DatabasePrivilegesDiff>, String>)
    ensures
        match merge_diffs(diffs_view(to@)) {
            Ok(m) => r is Ok && diffs_view(r->Ok_0@).to_set() == reduced_diffs(rows_view(from@), m)
                && diffs_view(r->Ok_0@).no_duplicates(),
            Err(e) => r is Err && r->Err_0@ == e,
        },
        r matches Ok(v) ==> sorted_diffs(diffs_view(v@)),
        r matches Ok(v) ==> forall|i: int|
            0 <= i < v@.len() ==> !(#[trigger] v@[i]@ is Noop) && (v@[i]@ matches PrivilegesDiffView::Modified(m) ==> (
                lookup(rows_view(from@), (m.0, m.1)) matches Some(row) ==> effective_changes(m.2, row.2) == m.2
                    && !no_changes(m.2))),
{
    let ghost fv = rows_view(from@);
    let ghost tv = diffs_view(to@);
    let mut entries: Vec<DatabasePrivilegesDiff> = Vec::new();
    let mut i: usize = 0;
    while i < to.len()
        invariant
            i <= to@.len(),
            tv == diffs_view(to@),
            merge_diffs(tv.take(i as int)) is Ok,
            merge_diffs(tv.take(i as int))->Ok_0 == keys_map(diffs_view(entries@)),
            distinct_diff_keys(diffs_view(entries@)),
        decreases to@.len() - i,
    {
        assert(tv.take(i + 1).drop_last() =~= tv.take(i as int));
        assert(tv.take(i + 1).last() == to@[i as int]@);
        let d = &to[i];
        let ghost ev = diffs_view(entries@);
        proof {
            lemma_keys_map(ev);
        }
        match find_entry(&entries, d.get_database_name(), d.get_user_name()) {
            Some(idx) => {
                let mut e = entries[idx].clone();
                proof {
                    assert(ev[idx as int] == e@);
                    assert(keys_map(ev)[diff_key(ev[idx as int])] == ev[idx as int]);
                    lemma_mappend_key(e@, d@);
                }
                match e.mappend(d) {
                    Ok(()) => {},
                    Err(msg) => {
                        proof {
                            lemma_merge_err_stays(tv, i + 1);
                        }
                        return Err(msg);
                    },
                }
                entries.set(idx, e);
                proof {
                    assert(diffs_view(entries@) =~= ev.update(idx as int, e@));
                    lemma_keys_map_update(ev, idx as int, e@);
                }
            },
            None => {
                proof {
                    assert(!keys_map(ev).contains_key(diff_key(d@)));
                }
                entries.push(d.clone());
                proof {
                    assert(diffs_view(entries@).drop_last() =~= ev);
                    assert forall|a: int, b: int| 0 <= a < b < diffs_view(entries@).len() implies diff_key(
                        #[trigger] diffs_view(entries@)[a],
                    ) != diff_key(#[trigger] diffs_view(entries@)[b]) by {
                        if b < ev.len() {
                            assert(diffs_view(entries@)[a] == ev[a]);
                            assert(diffs_view(entries@)[b] == ev[b]);
                        } else {
                            assert(diffs_view(entries@)[a] == ev[a]);
                        }
                    }
                }
            },
        }
        i = i + 1;
    }
    assert(tv.take(to@.len() as int) =~= tv);
    let ghost ev = diffs_view(entries@);
    let ghost m = keys_map(ev);
    proof {
        lemma_keys_map(ev);
    }
    let mut out: Vec<DatabasePrivilegesDiff> = Vec::new();
    let mut j: usize = 0;
    while j < entries.len()
        invariant
            j <= entries@.len(),
            ev == diffs_view(entries@),
            m == keys_map(ev),
            distinct_diff_keys(ev),
            fv == rows_view(from@),
            forall|k: RowKey| #[trigger] m.contains_key(k) <==> exists|x: int| 0 <= x < ev.len() && diff_key(ev[x]) == k,
            forall|x: int| 0 <= x < ev.len() ==> #[trigger] m[diff_key(ev[x])] == ev[x],
            forall|a: int| 0 <= a < out@.len() ==> exists|x: int| 0 <= x < j && #[trigger] diffs_view(out@)[a] == reduced_diff(fv, ev[x]) && !(diffs_view(out@)[a] is Noop),
            forall|x: int| 0 <= x < j && !(reduced_diff(fv, #[trigger] ev[x]) is Noop) ==> diffs_view(out@).contains(reduced_diff(fv, ev[x])),
            forall|a: int, b: int| 0 <= a < b < out@.len() ==> diff_key(#[trigger] diffs_view(out@)[a]) != diff_key(#[trigger] diffs_view(out@)[b]),
            forall|a: int| 0 <= a < out@.len() ==> exists|x: int| 0 <= x < j && #[trigger] diff_key(diffs_view(out@)[a]) == diff_key(ev[x]),
        decreases entries@.len() - j,
    {
        let ghost before = diffs_view(out@);
        let e = &entries[j];
        let next: Option<DatabasePrivilegesDiff> = match e {
            DatabasePrivilegesDiff::Modified(md) => match find_row(from, &md.db, &md.user) {
                Some(fi) => {
                    let mut md2 = md.clone();
                    md2.remove_noops(&from[fi]);
                    if md2.is_empty() {
                        None
                    } else {
                        Some(DatabasePrivilegesDiff::Modified(md2))
                    }
                },
                None => Some(DatabasePrivilegesDiff::Modified(md.clone())),
            },
            DatabasePrivilegesDiff::Noop { .. } => None,
            _ => Some(e.clone()),
        };
        proof {
            assert(ev[j as int] == e@);
        }
        match next {
            Some(n) => {
                assert(n@ == reduced_diff(fv, ev[j as int]));
                out.push(n);
                proof {
                    let now = diffs_view(out@);
                    assert(now.drop_last() =~= before);
                    assert(now.last() == reduced_diff(fv, ev[j as int]));
                    assert(diff_key(reduced_diff(fv, ev[j as int])) == diff_key(ev[j as int]));
                    assert forall|a: int| 0 <= a < out@.len() implies exists|x: int| 0 <= x < j + 1 && #[trigger] diffs_view(out@)[a] == reduced_diff(fv, ev[x]) && !(diffs_view(out@)[a] is Noop) by {
                        if a < before.len() {
                            assert(now[a] == before[a]);
                        } else {
                            assert(now[a] == reduced_diff(fv, ev[j as int]));
                        }
                    }
                    assert forall|x: int| 0 <= x < j + 1 && !(reduced_diff(fv, #[trigger] ev[x]) is Noop) implies now.contains(reduced_diff(fv, ev[x])) by {
                        if x < j {
                            let a = choose|a: int| 0 <= a < before.len() && before[a] == reduced_diff(fv, ev[x]);
                            assert(now[a] == before[a]);
                        } else {
                            assert(now[now.len() - 1] == reduced_diff(fv, ev[x]));
                        }
                    }
                    assert forall|a: int| 0 <= a < out@.len() implies exists|x: int| 0 <= x < j + 1 && #[trigger] diff_key(diffs_view(out@)[a]) == diff_key(ev[x]) by {
                        if a < before.len() {
                            assert(now[a] == before[a]);
                        }
                    }
                    assert forall|a: int, b: int| 0 <= a < b < out@.len() implies diff_key(#[trigger] diffs_view(out@)[a]) != diff_key(#[trigger] diffs_view(out@)[b]) by {
                        assert(now[a] == before[a]);
                        if b < before.len() {
                            assert(now[b] == before[b]);
                        } else {
                            let x = choose|x: int| 0 <= x < j && #[trigger] diff_key(before[a]) == diff_key(ev[x]);
                            assert(diff_key(ev[x]) != diff_key(ev[j as int]));
                        }
                    }
                }
            },
            None => {
                assert(reduced_diff(fv, ev[j as int]) is Noop);
            },
        }
        j = j + 1;
    }
    proof {
        let ov = diffs_view(out@);
        assert(ov.no_duplicates()) by {
            assert forall|a: int, b: int| 0 <= a < ov.len() && 0 <= b < ov.len() && a != b implies ov[a] != ov[b] by {
                if a < b {
                    assert(diff_key(ov[a]) != diff_key(ov[b]));
                } else {
                    assert(diff_key(ov[b]) != diff_key(ov[a]));
                }
            }
        }
        assert(ov.to_set() =~= reduced_diffs(fv, m)) by {
            assert forall|d: PrivilegesDiffView| ov.to_set().contains(d) implies reduced_diffs(fv, m).contains(d) by {
                let a = choose|a: int| 0 <= a < ov.len() && ov[a] == d;
                let x = choose|x: int| 0 <= x < ev.len() && #[trigger] ov[a] == reduced_diff(fv, ev[x]) && !(ov[a] is Noop);
                assert(m[diff_key(ev[x])] == ev[x]);
                assert(m.contains_key(diff_key(ev[x])));
            }
            assert forall|d: PrivilegesDiffView| reduced_diffs(fv, m).contains(d) implies ov.to_set().contains(d) by {
                let k = choose|k: RowKey| #![trigger m[k]] m.contains_key(k) && reduced_diff(fv, m[k]) == d;
                let x = choose|x: int| 0 <= x < ev.len() && diff_key(ev[x]) == k;
                assert(m[diff_key(ev[x])] == ev[x]);
                assert(ov.contains(reduced_diff(fv, ev[x])));
            }
        }
        assert forall|a: int| 0 <= a < out@.len() implies !(#[trigger] out@[a]@ is Noop) && (out@[a]@ matches PrivilegesDiffView::Modified(md) ==> (
                lookup(fv, (md.0, md.1)) matches Some(row) ==> effective_changes(md.2, row.2) == md.2
                    && !no_changes(md.2))) by {
            assert(ov[a] == out@[a]@);
            let x = choose|x: int| 0 <= x < j && #[trigger] ov[a] == reduced_diff(fv, ev[x]) && !(ov[a] is Noop);
            match ev[x] {
                PrivilegesDiffView::Modified(md) => {
                    lemma_lookup_key_local(fv, (md.0, md.1));
                    match lookup(fv, (md.0, md.1)) {
                        Some(row) => {
                            let cs = effective_changes(md.2, row.2);
                            assert(effective_changes(cs, row.2) =~= cs);
                        },
                        None => {},
                    }
                },
                _ => {},
            }
        }
    }
    let sorted = sort_privilege_diffs(out);
    proof {
        let ov = diffs_view(out@);
        let sv = diffs_view(sorted@);
        assert forall|a: int| 0 <= a < sorted@.len() implies !(#[trigger] sorted@[a]@ is Noop) && (sorted@[a]@ matches PrivilegesDiffView::Modified(md) ==> (
                lookup(fv, (md.0, md.1)) matches Some(row) ==> effective_changes(md.2, row.2) == md.2
                    && !no_changes(md.2))) by {
            assert(sv[a] == sorted@[a]@);
            assert(sv.to_set().contains(sv[a]));
            let b = choose|b: int| 0 <= b < ov.len() && ov[b] == sv[a];
            assert(ov[b] == out@[b]@);
        }
    }
    Ok(sorted)
}

proof fn lemma_lookup_key_local(rows: Seq<PrivilegeRowView>, k: RowKey)
    ensures
        lookup(rows, k) matches Some(r) ==> row_key(r) == k,
    decreases rows.len(),
{
    if rows.len() > 0 && row_key(rows.last()) != k {
        lemma_lookup_key_local(rows.drop_last(), k);
    }
}

/// The cells of a diff in the table of diffs: database, user, and what happens to the row.
pub open spec fn diff_table_row(d: PrivilegesDiffView) -> Seq<Seq<char>> {
    match d {
        PrivilegesDiffView::New(r) => seq![r.0, r.1, "(Previously unprivileged)\n"@ + row_display(r.2, 11)],
        PrivilegesDiffView::Modified(m) => seq![m.0, m.1, row_diff_display(m.2, 11)],
        PrivilegesDiffView::Deleted(r) => seq![r.0, r.1, "Removed"@],
        PrivilegesDiffView::Noop(db, user) => seq![db, user, "No changes"@],
    }
}

/// The titles of the table of diffs.
pub open spec fn diff_table_titles() -> Seq<Seq<char>> {
    seq!["Database"@, "User"@, "Privilege diff"@]
}

/// In the table of diffs, the column titled `Database` shows the diff's database, the column
/// titled `User` its user, and the last what it changes.
pub proof fn lemma_diff_table_columns(d: PrivilegesDiffView)
    ensures
        diff_table_row(d).len() == diff_table_titles().len(),
        forall|j: int| 0 <= j < 3 && #[trigger] diff_table_titles()[j] == "Database"@ ==> diff_table_row(d)[j] == diff_key(d).0,
        forall|j: int| 0 <= j < 3 && #[trigger] diff_table_titles()[j] == "User"@ ==> diff_table_row(d)[j] == diff_key(d).1,
        diff_table_titles()[2] == "Privilege diff"@,
{
    reveal_strlit("Database");
    reveal_strlit("User");
    reveal_strlit("Privilege diff");
    let t = diff_table_titles();
    assert("Database"@[0] == 'D' && "User"@[0] == 'U' && "Privilege diff"@[0] == 'P');
    assert(t[0] != "User"@ && t[1] != "Database"@ && t[2] != "Database"@ && t[2] != "User"@);
}

/// The rows of the table of diffs, one per diff, in the order given.
pub fn privilege_diff_table_rows(diffs: &[DatabasePrivilegesDiff]) -> (r: Vec<Vec<String>>)
    ensures
        cells_view(r@) == diffs_view(diffs@).map_values(|d: PrivilegesDiffView| diff_table_row(d)),
{
    let mut rows: Vec<Vec<String>> = Vec::new();
    let mut i: usize = 0;
    while i < diffs.len()
        invariant
            i <= diffs@.len(),
            rows@.len() == i,
            cells_view(rows@) == diffs_view(diffs@.take(i as int)).map_values(|d: PrivilegesDiffView| diff_table_row(d)),
        decreases diffs@.len() - i,
    {
        let mut row: Vec<String> = Vec::new();
        match &diffs[i] {
            DatabasePrivilegesDiff::New(p) => {
                row.push(p.db.0.clone());
                row.push(p.user.0.clone());
                let mut text = String::from_str("(Previously unprivileged)\n");
                let shown = p.to_display_string();
                push_str(&mut text, shown.as_str());
                row.push(text);
            },
            DatabasePrivilegesDiff::Modified(p) => {
                row.push(p.db.0.clone());
                row.push(p.user.0.clone());
                row.push(p.to_display_string());
            },
            DatabasePrivilegesDiff::Deleted(p) => {
                row.push(p.db.0.clone());
                row.push(p.user.0.clone());
                row.push(String::from_str("Removed"));
            },
            DatabasePrivilegesDiff::Noop { db, user } => {
                row.push(db.0.clone());
                row.push(user.0.clone());
                row.push(String::from_str("No changes"));
            },
        }
        assert(row@.map_values(|c: String| c@) =~= diff_table_row(diffs@[i as int]@));
        let ghost before = rows@;
        rows.push(row);
        proof {
            let want = diffs_view(diffs@.take(i + 1)).map_values(|d: PrivilegesDiffView| diff_table_row(d));
            let had = diffs_view(diffs@.take(i as int)).map_values(|d: PrivilegesDiffView| diff_table_row(d));
            assert forall|k: int| 0 <= k < i + 1 implies #[trigger] cells_view(rows@)[k] == want[k] by {
                if k < i {
                    assert(rows@[k] == before[k]);
                    assert(cells_view(before)[k] == had[k]);
                    assert(diffs@.take(i + 1)[k] == diffs@.take(i as int)[k]);
                }
            }
            assert(cells_view(rows@) =~= want);
        }
        i = i + 1;
    }
    assert(diffs@.take(diffs@.len() as int) =~= diffs@);
    rows
}

/// Draws the diffs as a table with the columns `Database`, `User` and `Privilege diff`, one
/// row per diff in the order given.
pub fn display_privilege_diffs(diffs: &[DatabasePrivilegesDiff]) -> (r: String)
    ensures
        r@ == drawn_table(
            Some(diff_table_titles()),
            diffs_view(diffs@).map_values(|d: PrivilegesDiffView| diff_table_row(d)),
        ),
{
    let mut titles: Vec<String> = Vec::new();
    titles.push(String::from_str("Database"));
    titles.push(String::from_str("User"));
    titles.push(String::from_str("Privilege diff"));
    assert(strings_view(titles@) =~= diff_table_titles());
    let rows = privilege_diff_table_rows(diffs);
    draw_table(Some(titles.as_slice()), rows.as_slice())
}

} // verus!
